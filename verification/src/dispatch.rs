//! Turning a stored configuration into a dispatched job payload.

use vstd::prelude::*;
use crate::codec::{decode_url_list, spec_targets};
use crate::models::ScanConfig;

verus! {

/// Scan options carried by a dispatched job, handed verbatim to the worker.
pub struct JobOptions {
    /// Advisory time budget for the worker, in seconds: the configuration's
    /// duration in minutes times sixty.
    pub max_duration: i32,
    /// Scan-type tag copied from the configuration.
    pub scan_type: String,
}

/// One dispatched execution instance of a configuration. Immutable once
/// published; each dispatch produces a distinct payload with its own job id.
pub struct JobPayload {
    /// Fresh identity of this job, distinct from any configuration id.
    pub job_id: String,
    /// Denormalized copy of the configuration's name, not a reference.
    pub config_name: String,
    /// Point-in-time copy of the configuration's target URLs.
    pub targets: Vec<String>,
    /// Options handed to the worker.
    pub options: JobOptions,
}

/// The mathematical content of a job payload.
pub ghost struct JobPayloadView {
    pub job_id: Seq<char>,
    pub config_name: Seq<char>,
    pub targets: Seq<Seq<char>>,
    pub max_duration: int,
    pub scan_type: Seq<char>,
}

impl View for JobPayload {
    type V = JobPayloadView;

    open spec fn view(&self) -> JobPayloadView {
        JobPayloadView {
            job_id: self.job_id@,
            config_name: self.config_name@,
            targets: self.targets.deep_view(),
            max_duration: self.options.max_duration as int,
            scan_type: self.options.scan_type@,
        }
    }
}

/// The payload that dispatching `config` under the job id `job_id` yields:
/// the name and scan type copied verbatim, the targets resolved from the
/// stored URL text (empty where that text does not decode), and the duration
/// budget converted from minutes to seconds.
pub open spec fn spec_payload_of(config: ScanConfig, job_id: Seq<char>) -> JobPayloadView {
    JobPayloadView {
        job_id: job_id,
        config_name: config.name@,
        targets: spec_targets(config.urls@),
        max_duration: config.duration * 60,
        scan_type: config.scan_type@,
    }
}

/// Copies a target list. The copy's mathematical content equals the
/// original's.
pub fn clone_targets(targets: &Vec<String>) -> (r: Vec<String>)
    ensures
        r@ == targets@,
        r.deep_view() == targets.deep_view(),
{
    let mut r: Vec<String> = Vec::new();
    let mut i: usize = 0;
    while i < targets.len()
        invariant
            i <= targets.len(),
            r@ == targets@.take(i as int),
        decreases targets.len() - i,
    {
        r.push(targets[i].clone());
        assert(r@ =~= targets@.take(i + 1));
        i += 1;
    }
    assert(r@ =~= targets@);
    assert(r.deep_view() =~= targets.deep_view());
    r
}

impl JobPayload {
    /// Copies a payload. The copy's mathematical content equals the
    /// original's.
    pub fn duplicate(&self) -> (r: JobPayload)
        ensures
            r@ == self@,
    {
        JobPayload {
            job_id: self.job_id.clone(),
            config_name: self.config_name.clone(),
            targets: clone_targets(&self.targets),
            options: JobOptions {
                max_duration: self.options.max_duration,
                scan_type: self.options.scan_type.clone(),
            },
        }
    }
}

/// Builds the job payload that dispatching `config` under `job_id` yields:
/// targets are the configuration's stored URL text decoded, degrading to an
/// empty list where that text does not decode (the leniency policy — such a
/// dispatch still succeeds); `max_duration` is the configured duration in
/// minutes converted to seconds; name and scan type are copied verbatim.
pub fn build_payload(config: &ScanConfig, job_id: String) -> (p: JobPayload)
    requires
        i32::MIN <= config.duration * 60 <= i32::MAX,
    ensures
        p@ == spec_payload_of(*config, job_id@),
{
    let targets: Vec<String> = match decode_url_list(&config.urls) {
        Some(urls) => urls,
        None => Vec::new(),
    };
    assert(targets.deep_view() == spec_targets(config.urls@));
    JobPayload {
        job_id,
        config_name: config.name.clone(),
        targets,
        options: JobOptions { max_duration: config.duration * 60, scan_type: config.scan_type.clone() },
    }
}

} // verus!
