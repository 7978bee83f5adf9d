//! How long a blocking read may take.
use vstd::prelude::*;

verus! {

/// A span of time.
#[derive(Copy, Clone, Debug, PartialEq, Eq, Structural)]
pub struct Timeout {
    /// The whole seconds.
    pub secs: u64,
    /// The nanoseconds beyond the whole seconds.
    pub nanos: u32,
}

impl Timeout {
    /// The nanoseconds are less than a second.
    pub open spec fn wf(self) -> bool {
        self.nanos < 1_000_000_000
    }
}

/// The read timeout of a socket, as `SO_RCVTIMEO` takes it: all zero stands for none.
#[derive(Copy, Clone, Debug, PartialEq, Eq, Structural)]
pub struct ReadTimeout {
    /// The whole seconds.
    pub tv_sec: libc::time_t,
    /// The microseconds beyond the whole seconds.
    pub tv_usec: libc::suseconds_t,
}

impl ReadTimeout {
    /// The timeout is one that a socket takes: the microseconds are less than a second.
    pub open spec fn wf(self) -> bool {
        self.tv_sec >= 0 && 0 <= self.tv_usec < 1_000_000
    }

    /// Whether reads may take as long as they like.
    pub open spec fn is_unbounded(self) -> bool {
        self.tv_sec == 0 && self.tv_usec == 0
    }

    /// The read timeout for a wait that may take `timeout`, or as long as it likes.
    pub open spec fn spec_of(timeout: Option<Timeout>) -> ReadTimeout {
        match timeout {
            None => ReadTimeout { tv_sec: 0, tv_usec: 0 },
            Some(timeout) => ReadTimeout {
                tv_sec: if timeout.secs <= libc::time_t::MAX {
                    timeout.secs as libc::time_t
                } else {
                    libc::time_t::MAX
                },
                tv_usec: if timeout.secs == 0 && timeout.nanos < 1000 {
                    1
                } else {
                    (timeout.nanos / 1000) as libc::suseconds_t
                },
            },
        }
    }

    /// Bounds how long a blocking read waits, so a response that never arrives cannot wedge the crash
    /// path.
    ///
    /// An all-zero timeout disables the timeout, so a positive but sub-microsecond deadline has to
    /// round up to stay a deadline.
    pub fn of(timeout: Option<Timeout>) -> (read_timeout: ReadTimeout)
        ensures
            read_timeout == ReadTimeout::spec_of(timeout),
            (timeout matches Some(timeout) ==> timeout.wf()) ==> read_timeout.wf(),
            timeout is None ==> read_timeout.tv_sec == 0 && read_timeout.tv_usec == 0,
            timeout matches Some(timeout) ==> {
                &&& timeout.secs <= libc::time_t::MAX ==> read_timeout.tv_sec == timeout.secs
                &&& timeout.secs > libc::time_t::MAX ==> read_timeout.tv_sec == libc::time_t::MAX
                &&& timeout.secs > 0 || timeout.nanos >= 1000 ==> read_timeout.tv_usec * 1000
                    <= timeout.nanos < read_timeout.tv_usec * 1000 + 1000
                &&& timeout.secs == 0 && timeout.nanos < 1000 ==> read_timeout.tv_usec == 1
            },
    {
        match timeout {
            None => ReadTimeout { tv_sec: 0, tv_usec: 0 },
            Some(timeout) => {
                let longest: u64 = libc::time_t::MAX as u64;
                let secs: u64 = if timeout.secs <= longest {
                    timeout.secs
                } else {
                    longest
                };
                let tv_sec: libc::time_t = secs as libc::time_t;
                let tv_usec: libc::suseconds_t = (timeout.nanos / 1000) as libc::suseconds_t;
                ReadTimeout {
                    tv_sec,
                    tv_usec: if tv_sec == 0 && tv_usec == 0 {
                        1
                    } else {
                        tv_usec
                    },
                }
            },
        }
    }
}

/// A deadline is never mistaken for no deadline: the read timeout is unbounded exactly for a wait
/// that is.
pub proof fn law_deadlines_stay_deadlines(timeout: Option<Timeout>)
    ensures
        ReadTimeout::spec_of(timeout).is_unbounded() <==> timeout is None,
{
}

/// A span of time makes a timeout that a socket takes.
pub proof fn law_read_timeouts_are_well_formed(timeout: Option<Timeout>)
    requires
        timeout matches Some(timeout) ==> timeout.wf(),
    ensures
        ReadTimeout::spec_of(timeout).wf(),
{
}

/// A read waits at most as long as it may, but for the microsecond that a shorter deadline is rounded
/// up to.
pub proof fn law_reads_keep_to_the_deadline(timeout: Timeout)
    requires
        timeout.secs > 0 || timeout.nanos >= 1000,
    ensures
        ReadTimeout::spec_of(Some(timeout)).tv_sec * 1_000_000_000 + ReadTimeout::spec_of(
            Some(timeout),
        ).tv_usec * 1000 <= timeout.secs * 1_000_000_000 + timeout.nanos,
{
}

/// A read waits for the span of time that it is given, to the microsecond: no longer, but for a span
/// below a microsecond, which is rounded up to one, and no shorter by a microsecond or more, unless the
/// seconds are more than a socket takes.
pub proof fn law_read_timeouts_are_the_span(timeout: Timeout)
    requires
        timeout.secs <= libc::time_t::MAX,
    ensures
        ({
            let span = timeout.secs * 1_000_000_000 + timeout.nanos;
            let read = ReadTimeout::spec_of(Some(timeout));
            let set = read.tv_sec * 1_000_000_000 + read.tv_usec * 1000;
            &&& span >= 1000 ==> set <= span < set + 1000
            &&& span < 1000 ==> set == 1000
            &&& read.tv_sec == timeout.secs
        }),
{
}

/// A span of more seconds than a socket takes is cut to as many as it takes.
pub proof fn law_long_read_timeouts_are_cut(timeout: Timeout)
    requires
        timeout.secs > libc::time_t::MAX,
    ensures
        ReadTimeout::spec_of(Some(timeout)).tv_sec == libc::time_t::MAX,
        ReadTimeout::spec_of(Some(timeout)).tv_usec == timeout.nanos / 1000,
{
}

/// No timeout lifts the one that is set.
pub proof fn law_no_timeout_is_all_zero()
    ensures
        ReadTimeout::spec_of(None).tv_sec == 0,
        ReadTimeout::spec_of(None).tv_usec == 0,
{
}

} // verus!
