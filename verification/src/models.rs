//! Stored records: scan configurations and worker-submitted scan results.

use vstd::prelude::*;
use crate::codec::{encode_url_list, json_of_urls, json_url_list, spec_targets};
use crate::ids::{fresh_id, now_timestamp};

verus! {

/// A stored, reusable scan definition. Immutable once created: dispatching
/// reads it, nothing in this subsystem updates it.
pub struct ScanConfig {
    /// Opaque unique identity of the configuration.
    pub id: String,
    /// Human-readable name.
    pub name: String,
    /// The ordered target-URL list, serialized as one JSON text.
    pub urls: String,
    /// Scan-type tag handed verbatim to dispatched jobs.
    pub scan_type: String,
    /// Spider-type tag.
    pub spider_type: String,
    /// Whether the scanner should honour robots files.
    pub parse_robots: bool,
    /// Whether the scanner should read sitemaps.
    pub parse_sitemap: bool,
    /// Scan duration budget, in minutes.
    pub duration: i32,
    /// Creation time, Unix seconds.
    pub created_at: i64,
}

impl ScanConfig {
    /// Builds a new configuration from client input: a fresh identity and
    /// timestamp, the URL list serialized to JSON, and the fixed defaults
    /// for the spider settings. The serialized URL text decodes back to the
    /// given list, so a later dispatch resolves exactly these targets.
    pub fn new(name: String, urls: Vec<String>, scan_type: String, duration: i32) -> (c:
        ScanConfig)
        ensures
            c.name == name,
            c.urls@ == json_of_urls(urls.deep_view()),
            json_url_list(c.urls@) == Some(urls.deep_view()),
            spec_targets(c.urls@) == urls.deep_view(),
            c.scan_type == scan_type,
            c.spider_type@ == "spider"@,
            c.parse_robots,
            c.parse_sitemap,
            c.duration == duration,
            c.id@.len() == 36,
    {
        let urls_text = encode_url_list(&urls);
        ScanConfig {
            id: fresh_id(),
            name,
            urls: urls_text,
            scan_type,
            spider_type: "spider".to_owned(),
            parse_robots: true,
            parse_sitemap: true,
            duration,
            created_at: now_timestamp(),
        }
    }
}

/// One worker-submitted scan result, persisted verbatim. No validation ties
/// the severity counters to the total, and no check ties the job id to a job
/// this subsystem ever dispatched: worker data is trusted by design.
pub struct ScanResult {
    /// Opaque unique identity of the record.
    pub id: String,
    /// The job the worker reports on; an opaque string by this point.
    pub job_id: String,
    /// Denormalized configuration name.
    pub config_name: String,
    /// The URL the result concerns.
    pub url: String,
    /// Total number of findings reported.
    pub total_vulnerabilities: i32,
    /// High-severity findings.
    pub high_sev: i32,
    /// Medium-severity findings.
    pub medium_sev: i32,
    /// Low-severity findings.
    pub low_sev: i32,
    /// Informational findings.
    pub info_sev: i32,
    /// Path of the report artifact the worker wrote.
    pub report_path: String,
    /// Creation time, Unix seconds.
    pub created_at: i64,
}

impl ScanResult {
    /// Builds the record for a worker submission: every submitted field is
    /// kept verbatim, under a fresh record identity and timestamp.
    pub fn record(
        job_id: String,
        config_name: String,
        url: String,
        total_vulnerabilities: i32,
        high_sev: i32,
        medium_sev: i32,
        low_sev: i32,
        info_sev: i32,
        report_path: String,
    ) -> (r: ScanResult)
        ensures
            r.job_id == job_id,
            r.config_name == config_name,
            r.url == url,
            r.total_vulnerabilities == total_vulnerabilities,
            r.high_sev == high_sev,
            r.medium_sev == medium_sev,
            r.low_sev == low_sev,
            r.info_sev == info_sev,
            r.report_path == report_path,
            r.id@.len() == 36,
    {
        ScanResult {
            id: fresh_id(),
            job_id,
            config_name,
            url,
            total_vulnerabilities,
            high_sev,
            medium_sev,
            low_sev,
            info_sev,
            report_path,
            created_at: now_timestamp(),
        }
    }
}

} // verus!
