use vstd::prelude::*;
use crate::render::{dec_str, e4_str, e4_to_string, u64_to_string};
use crate::scenario::{RunResult, Scenario, name_spec, scenario_name, scenario_wf};
use vstd::string::StringExecFns;

verus! {

// One measurement record per (size, scenario, seed, repetition) execution.
// Records are values: assembled once, never mutated, appended to the output
// in iteration order by the caller.

/// Relies on chrono::Utc::now, an opaque reading of the system clock,
/// converted to text by chrono::DateTime::to_rfc3339; the record only
/// carries the text along.
#[verifier::external_body]
fn now_iso() -> String {
    chrono::Utc::now().to_rfc3339()
}

/// One normalized measurement record.
pub struct Record {
    pub timestamp_iso: String,
    pub impl_name: String,
    pub scenario_label: String,
    pub n: u64,
    pub seed: u64,
    pub rep_id: u64,
    pub ops_in_run: u64,
    pub total_time_ns: u64,
    pub ns_per_op_e4: u64,
    pub init_time_ns: u64,
    pub relocations_count: u64,
    pub conversions_count: u64,
}

/// Assembles the record of one run: stamps it with the clock, labels the
/// implementation and the scenario, and copies the run's metrics. The two
/// reserved counters are always zero here.
pub fn make_record(
    impl_name: &str,
    sc: Scenario,
    n: u64,
    seed: u64,
    rep_id: u64,
    res: &RunResult,
) -> (r: Record)
    requires
        scenario_wf(sc),
    ensures
        r.impl_name@ == impl_name@,
        r.scenario_label@ == name_spec(sc),
        r.n == n,
        r.seed == seed,
        r.rep_id == rep_id,
        r.ops_in_run == res.ops_in_run,
        r.total_time_ns == res.total_time_ns,
        r.ns_per_op_e4 == res.ns_per_op_e4,
        r.init_time_ns == res.init_time_ns,
        r.relocations_count == 0,
        r.conversions_count == 0,
{
    Record {
        timestamp_iso: now_iso(),
        impl_name: impl_name.to_owned(),
        scenario_label: scenario_name(sc),
        n,
        seed,
        rep_id,
        ops_in_run: res.ops_in_run,
        total_time_ns: res.total_time_ns,
        ns_per_op_e4: res.ns_per_op_e4,
        init_time_ns: res.init_time_ns,
        relocations_count: 0,
        conversions_count: 0,
    }
}

impl Record {
    /// The fixed header naming the twelve cells of a row.
    pub fn header() -> (r: Vec<&'static str>)
        ensures
            r@.len() == 12,
            r@[0]@ == "timestamp_iso"@,
            r@[1]@ == "impl_name"@,
            r@[2]@ == "scenario"@,
            r@[3]@ == "N"@,
            r@[4]@ == "seed"@,
            r@[5]@ == "rep_id"@,
            r@[6]@ == "ops_in_run"@,
            r@[7]@ == "total_time_ns"@,
            r@[8]@ == "ns_per_op"@,
            r@[9]@ == "init_time_ns_if_recorded"@,
            r@[10]@ == "relocations_count"@,
            r@[11]@ == "conversions_count"@,
    {
        let mut v: Vec<&'static str> = Vec::new();
        v.push("timestamp_iso");
        v.push("impl_name");
        v.push("scenario");
        v.push("N");
        v.push("seed");
        v.push("rep_id");
        v.push("ops_in_run");
        v.push("total_time_ns");
        v.push("ns_per_op");
        v.push("init_time_ns_if_recorded");
        v.push("relocations_count");
        v.push("conversions_count");
        v
    }

    /// The row cells in header order. Numbers are plain decimal; the
    /// per-operation time carries exactly four decimal digits.
    pub fn fields(&self) -> (r: Vec<String>)
        ensures
            r@.len() == 12,
            r@[0]@ == self.timestamp_iso@,
            r@[1]@ == self.impl_name@,
            r@[2]@ == self.scenario_label@,
            r@[3]@ == dec_str(self.n as nat),
            r@[4]@ == dec_str(self.seed as nat),
            r@[5]@ == dec_str(self.rep_id as nat),
            r@[6]@ == dec_str(self.ops_in_run as nat),
            r@[7]@ == dec_str(self.total_time_ns as nat),
            r@[8]@ == e4_str(self.ns_per_op_e4 as nat),
            r@[9]@ == dec_str(self.init_time_ns as nat),
            r@[10]@ == dec_str(self.relocations_count as nat),
            r@[11]@ == dec_str(self.conversions_count as nat),
    {
        let mut v: Vec<String> = Vec::new();
        v.push(self.timestamp_iso.clone());
        v.push(self.impl_name.clone());
        v.push(self.scenario_label.clone());
        v.push(u64_to_string(self.n));
        v.push(u64_to_string(self.seed));
        v.push(u64_to_string(self.rep_id));
        v.push(u64_to_string(self.ops_in_run));
        v.push(u64_to_string(self.total_time_ns));
        v.push(e4_to_string(self.ns_per_op_e4));
        v.push(u64_to_string(self.init_time_ns));
        v.push(u64_to_string(self.relocations_count));
        v.push(u64_to_string(self.conversions_count));
        v
    }
}

} // verus!
