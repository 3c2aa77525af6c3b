//! Deciding whether the OpenCode binary is available. Availability is
//! never invented: it is reported only for a path that was found to be an
//! executable file.

use vstd::prelude::*;
use vstd::string::*;
use crate::text::{lines_of, split_lines, trim, trim_seq};

verus! {

/// The outcome of looking for `opencode`.
#[derive(Debug)]
pub struct OpenCodeProbe {
    pub available: bool,
    pub path: Option<String>,
    pub version: Option<String>,
    /// `OPENCODE_BIN`, `OPENCODE_BIN_missing`, `PATH` or `missing`.
    pub source: String,
}

pub struct OpenCodeProbeV {
    pub available: bool,
    pub path: Option<Seq<char>>,
    pub version: Option<Seq<char>>,
    pub source: Seq<char>,
}

impl View for OpenCodeProbe {
    type V = OpenCodeProbeV;

    open spec fn view(&self) -> OpenCodeProbeV {
        OpenCodeProbeV {
            available: self.available,
            path: crate::journal::opt_view(self.path),
            version: crate::journal::opt_view(self.version),
            source: self.source@,
        }
    }
}

impl OpenCodeProbe {
    /// The path found, if any.
    pub fn path_buf(&self) -> (r: Option<String>)
        ensures
            crate::journal::opt_view(r) == self@.path,
    {
        crate::journal::copy_opt(&self.path)
    }

    pub fn duplicate(&self) -> (r: OpenCodeProbe)
        ensures
            r@ == self@,
    {
        OpenCodeProbe {
            available: self.available,
            path: crate::journal::copy_opt(&self.path),
            version: crate::journal::copy_opt(&self.version),
            source: self.source.clone(),
        }
    }
}

/// The version a `--version` run reports: the first line of its output,
/// trimmed, when the run succeeded and that line is not empty.
pub open spec fn reported_version(success: bool, stdout: Seq<char>) -> Option<Seq<char>> {
    let first = if lines_of(stdout).len() > 0 { lines_of(stdout)[0] } else { Seq::empty() };
    if !success || trim_seq(first).len() == 0 { None } else { Some(trim_seq(first)) }
}

/// The version reported by a `--version` run (see `reported_version`).
pub fn version_from_output(success: bool, stdout: &str) -> (r: Option<String>)
    ensures
        crate::journal::opt_view(r) == reported_version(success, stdout@),
{
    if !success {
        return None;
    }
    let lines = split_lines(stdout);
    proof { assert(crate::text::views_of(lines@).len() == lines@.len()); }
    let first: String = if lines.len() > 0 { lines[0].clone() } else { String::new() };
    proof {
        if lines@.len() > 0 {
            assert(crate::text::views_of(lines@)[0] == lines@[0]@);
        }
    }
    let t = trim(first.as_str());
    if t.as_str().is_empty() { None } else { Some(t) }
}

/// The probe when `OPENCODE_BIN` is set to `raw`: the override is used
/// even when it is wrong. Blank means missing; otherwise the trimmed path
/// is available exactly when it is an executable file, with the version
/// it reported.
pub open spec fn override_probe(raw: Seq<char>, executable: bool, version: Option<Seq<char>>) -> OpenCodeProbeV {
    let p = trim_seq(raw);
    if p.len() == 0 {
        OpenCodeProbeV { available: false, path: None, version: None, source: "OPENCODE_BIN_missing"@ }
    } else if executable {
        OpenCodeProbeV { available: true, path: Some(p), version, source: "OPENCODE_BIN"@ }
    } else {
        OpenCodeProbeV { available: false, path: Some(p), version: None, source: "OPENCODE_BIN_missing"@ }
    }
}

/// The probe for an `OPENCODE_BIN` override (see `override_probe`);
/// `executable` and `version` answer for the trimmed path.
pub fn probe_override(raw: &str, executable: bool, version: Option<String>) -> (r: OpenCodeProbe)
    ensures
        r@ == override_probe(raw@, executable, crate::journal::opt_view(version)),
{
    let p = trim(raw);
    if p.as_str().is_empty() {
        OpenCodeProbe { available: false, path: None, version: None, source: "OPENCODE_BIN_missing".to_owned() }
    } else if executable {
        OpenCodeProbe { available: true, path: Some(p), version, source: "OPENCODE_BIN".to_owned() }
    } else {
        OpenCodeProbe { available: false, path: Some(p), version: None, source: "OPENCODE_BIN_missing".to_owned() }
    }
}

/// The probe without an override: the first executable `opencode` on
/// `PATH`, with the version it reported, or missing.
pub fn probe_search(found: Option<String>, version: Option<String>) -> (r: OpenCodeProbe)
    ensures
        match found {
            Some(p) => r@ == (OpenCodeProbeV { available: true, path: Some(p@),
                version: crate::journal::opt_view(version), source: "PATH"@ }),
            None => r@ == (OpenCodeProbeV { available: false, path: None, version: None, source: "missing"@ }),
        },
{
    match found {
        Some(p) => OpenCodeProbe { available: true, path: Some(p), version, source: "PATH".to_owned() },
        None => OpenCodeProbe { available: false, path: None, version: None, source: "missing".to_owned() },
    }
}

/// Availability is reported only with the path that was found.
pub proof fn lemma_available_has_path(raw: Seq<char>, executable: bool, version: Option<Seq<char>>)
    ensures
        override_probe(raw, executable, version).available ==> override_probe(raw, executable, version).path is Some
            && executable,
{
}

} // verus!
