//! The NVIDIA probe's XML handling.
//!
//! The diagnostic tool is asked for XML output; the document is converted to
//! a generic JSON tree by an outside crate, and three text leaves — GPU
//! utilization, frame-buffer total, frame-buffer used — are extracted at
//! fixed structural paths. The conversion and the lookups are pure functions
//! of the document text, so what they yield is given a name,
//! [`nvidia_leaves_of`], and everything downstream of the extraction — the
//! numeric-prefix parsing and the assembly of the sample — is verified
//! against that name in [`crate::gpu`].

use vstd::prelude::*;
use vstd::string::StringSliceAdditionalSpecFns;

use crate::gpu::{nvidia_sample_spec, GpuInfo};

verus! {

/// The three text leaves (utilization, frame-buffer total, frame-buffer
/// used) that the fixed-path extraction finds in the diagnostic tool's XML
/// output, or nothing when the document lacks the structure. The extraction
/// depends on the document text alone, so its outcome is a function of it;
/// this name stands for that function, and [`nvidia_extract_leaves`] is
/// trusted to compute it.
pub uninterp spec fn nvidia_leaves_of(xml: Seq<u8>) -> Option<(Seq<char>, Seq<char>, Seq<char>)>;

/// Relies on xmltojson::to_json and on serde_json::Value::get / Value::as_str:
/// the tree is built from the document text alone and the lookups are pure,
/// so the three leaves are the function of the document that
/// [`nvidia_leaves_of`] names. A document without the expected structure —
/// including one the converter could not really read, which comes back as a
/// partial or null tree — yields nothing.
#[verifier::external_body]
fn nvidia_extract_leaves(xml: &str) -> (r: Option<(String, String, String)>)
    ensures
        (match r {
            Option::Some(l) => Option::Some((l.0@, l.1@, l.2@)),
            Option::None => Option::None,
        }) == nvidia_leaves_of(xml.spec_bytes()),
{
    let v = xmltojson::to_json(xml).ok()?;
    let gpu = v.get("nvidia_smi_log")?.get("gpu")?;
    let u = gpu.get("utilization")?.get("gpu_util")?.as_str()?;
    let t = gpu.get("fb_memory_usage")?.get("total")?.as_str()?;
    let m = gpu.get("fb_memory_usage")?.get("used")?.as_str()?;
    Some((u.to_string(), t.to_string(), m.to_string()))
}

impl GpuInfo {
    /// Extracts a GPU sample from the diagnostic tool's XML output: the
    /// document is converted to a JSON tree, the utilization and
    /// frame-buffer-memory leaves are read at their fixed paths, and each
    /// leaf's numeric prefix is parsed. Yields nothing exactly when the
    /// extraction finds no leaves or some leaf's prefix fails to parse.
    pub fn nvidia_parse_xml(xml: &str) -> (r: Option<GpuInfo>)
        ensures
            r == (match nvidia_leaves_of(xml.spec_bytes()) {
                Option::Some(l) => nvidia_sample_spec(
                    vstd::utf8::encode_utf8(l.0),
                    vstd::utf8::encode_utf8(l.1),
                    vstd::utf8::encode_utf8(l.2),
                ),
                Option::None => Option::None,
            }),
    {
        match nvidia_extract_leaves(xml) {
            Option::Some(l) => Self::from_nvidia_fields(l.0.as_str(), l.1.as_str(), l.2.as_str()),
            Option::None => Option::None,
        }
    }
}

} // verus!
