use vstd::prelude::*;

verus! {

/// Why a choice of timeouts was refused.
#[derive(Clone, Copy, Debug, PartialEq, Eq, Structural)]
pub enum ConfigError {
    /// The heartbeat interval is zero.
    ZeroHeartbeat,
    /// The heartbeat interval is not shorter than the shortest election timeout.
    HeartbeatNotBelowMinimum,
    /// The shortest election timeout is not shorter than the longest.
    MinimumNotBelowMaximum,
}

/// The timing of a server, in milliseconds: how often a leader sends its
/// heartbeat, and the range `[min, max)` from which election timeouts are
/// drawn. Always `0 < heartbeat < min < max`.
pub struct Timeouts {
    heartbeat_millis: u64,
    election_timeout_min: u64,
    election_timeout_max: u64,
}

/// Whether a heartbeat interval and an election timeout range can work
/// together: the heartbeat is positive and shorter than every election timeout,
/// and the range is not empty.
pub open spec fn valid_timeouts(heartbeat: u64, min: u64, max: u64) -> bool {
    0 < heartbeat < min < max
}

impl Timeouts {
    #[verifier::type_invariant]
    closed spec fn ordered(self) -> bool {
        valid_timeouts(self.heartbeat_millis, self.election_timeout_min, self.election_timeout_max)
    }

    /// The heartbeat interval.
    pub closed spec fn spec_heartbeat_millis(self) -> u64 {
        self.heartbeat_millis
    }

    /// The shortest election timeout.
    pub closed spec fn spec_election_timeout_min(self) -> u64 {
        self.election_timeout_min
    }

    /// The bound that every election timeout stays below.
    pub closed spec fn spec_election_timeout_max(self) -> u64 {
        self.election_timeout_max
    }

    /// Checks the timeouts in the order a server's start-up checks them: the
    /// heartbeat is positive, then shorter than the shortest election timeout,
    /// then that one is shorter than the longest.
    pub fn new(heartbeat_millis: u64, election_timeout_min: u64, election_timeout_max: u64) -> (r:
        Result<Timeouts, ConfigError>)
        ensures
            r is Ok <==> valid_timeouts(heartbeat_millis, election_timeout_min, election_timeout_max),
            r matches Ok(t) ==> {
                &&& t.spec_heartbeat_millis() == heartbeat_millis
                &&& t.spec_election_timeout_min() == election_timeout_min
                &&& t.spec_election_timeout_max() == election_timeout_max
            },
            r matches Err(e) ==> e == (if heartbeat_millis == 0 {
                ConfigError::ZeroHeartbeat
            } else if heartbeat_millis >= election_timeout_min {
                ConfigError::HeartbeatNotBelowMinimum
            } else {
                ConfigError::MinimumNotBelowMaximum
            }),
    {
        if heartbeat_millis == 0 {
            Err(ConfigError::ZeroHeartbeat)
        } else if heartbeat_millis >= election_timeout_min {
            Err(ConfigError::HeartbeatNotBelowMinimum)
        } else if election_timeout_min >= election_timeout_max {
            Err(ConfigError::MinimumNotBelowMaximum)
        } else {
            Ok(Timeouts { heartbeat_millis, election_timeout_min, election_timeout_max })
        }
    }

    /// The heartbeat interval.
    pub fn heartbeat_millis(&self) -> (r: u64)
        ensures
            r == self.spec_heartbeat_millis(),
            valid_timeouts(
                self.spec_heartbeat_millis(),
                self.spec_election_timeout_min(),
                self.spec_election_timeout_max(),
            ),
    {
        proof {
            use_type_invariant(self);
        }
        self.heartbeat_millis
    }

    /// The shortest election timeout.
    pub fn election_timeout_min(&self) -> (r: u64)
        ensures
            r == self.spec_election_timeout_min(),
            valid_timeouts(
                self.spec_heartbeat_millis(),
                self.spec_election_timeout_min(),
                self.spec_election_timeout_max(),
            ),
    {
        proof {
            use_type_invariant(self);
        }
        self.election_timeout_min
    }

    /// The bound that every election timeout stays below.
    pub fn election_timeout_max(&self) -> (r: u64)
        ensures
            r == self.spec_election_timeout_max(),
            valid_timeouts(
                self.spec_heartbeat_millis(),
                self.spec_election_timeout_min(),
                self.spec_election_timeout_max(),
            ),
    {
        proof {
            use_type_invariant(self);
        }
        self.election_timeout_max
    }
}

} // verus!
