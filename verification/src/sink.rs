use vstd::prelude::*;

verus! {

/// Milliseconds since the Unix epoch, read from the receiving process's own
/// clock.
///
/// Relies on chrono::Utc::now followed by DateTime::timestamp_millis: the
/// system clock as non-leap milliseconds since the epoch. Nothing is
/// promised of the value: every caller must hold for every reading the
/// clock can give. (chrono aborts the process should the system clock be
/// set before the epoch; no input of ours can cause that.)
#[verifier::external_body]
fn now_millis() -> (t: i64)
{
    chrono::Utc::now().timestamp_millis()
}

/// Clamp a clock reading to the unsigned millisecond timestamp the
/// benchmark log records: readings before the epoch become zero.
pub fn clamp_millis(t: i64) -> (r: u64)
    ensures
        t >= 0 ==> r == t,
        t < 0 ==> r == 0,
{
    if t >= 0 {
        t as u64
    } else {
        0
    }
}

/// The signature sink. It drains the shared signature-emission channel;
/// when benchmarking is enabled each drained signature is stamped with the
/// receiving process's clock at millisecond resolution and appended to the
/// ordered, append-only benchmark log. When disabled, signatures are
/// drained and discarded. The log is an explicitly owned resource handed in
/// at construction, never a process-wide singleton.
pub struct BenchmarkRecorder {
    enabled: bool,
    log: Vec<(u64, String)>,
}

impl BenchmarkRecorder {
    /// Whether benchmarking was enabled at construction.
    pub closed spec fn enabled(self) -> bool {
        self.enabled
    }

    /// The benchmark log: (millisecond receipt timestamp, signature) pairs
    /// in append order.
    pub closed spec fn entries(self) -> Seq<(u64, String)> {
        self.log@
    }

    /// A recorder over a fresh, empty benchmark log.
    pub fn new(enabled: bool) -> (r: Self)
        ensures
            r.enabled() == enabled,
            r.entries() == Seq::<(u64, String)>::empty(),
    {
        BenchmarkRecorder { enabled, log: Vec::new() }
    }

    /// Record one drained signature at a given receipt timestamp: appended
    /// when benchmarking is enabled, discarded otherwise.
    pub fn observe_at(&mut self, timestamp: u64, sig: String)
        ensures
            old(self).enabled() ==> final(self).entries() == old(self).entries().push(
                (timestamp, sig),
            ),
            !old(self).enabled() ==> final(self).entries() == old(self).entries(),
            final(self).enabled() == old(self).enabled(),
    {
        if self.enabled {
            self.log.push((timestamp, sig));
        }
    }

    /// Record one drained signature, stamped with the process's own clock
    /// now. Whatever the clock read, the log either grows by exactly that
    /// one signature (benchmarking enabled) or is untouched (disabled).
    pub fn observe_now(&mut self, sig: String)
        ensures
            final(self).enabled() == old(self).enabled(),
            !old(self).enabled() ==> final(self).entries() == old(self).entries(),
            old(self).enabled() ==> final(self).entries().len() == old(self).entries().len() + 1
                && final(self).entries().take(old(self).entries().len() as int) == old(
                self,
            ).entries() && final(self).entries().last().1 == sig,
    {
        let t = now_millis();
        let timestamp = clamp_millis(t);
        self.observe_at(timestamp, sig);
        proof {
            if old(self).enabled() {
                assert(self.entries().take(old(self).entries().len() as int) =~= old(
                    self,
                ).entries());
            }
        }
    }

    /// How many signatures the benchmark log holds.
    pub fn log_len(&self) -> (n: usize)
        ensures
            n == self.entries().len(),
    {
        self.log.len()
    }

    /// Hand the benchmark log out for the later cross-strategy latency
    /// comparison, consuming the recorder.
    pub fn into_log(self) -> (log: Vec<(u64, String)>)
        ensures
            log@ == self.entries(),
    {
        self.log
    }
}

} // verus!
