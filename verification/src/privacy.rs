//! Where the redaction-map sidecar of `--privacy anonymize` is written.

use vstd::prelude::*;
use crate::pathname::{path_join, path_parent, spec_path_join, spec_path_parent};

verus! {

/// The sidecar's path: `agentprof-redaction-map.json` beside `output`
/// (in `.` when `output` has no parent), or in the working directory when
/// there is no output file.
pub open spec fn sidecar_path_spec(output: Option<Seq<char>>) -> Seq<char> {
    match output {
        None => "agentprof-redaction-map.json"@,
        Some(p) => spec_path_join(
            match spec_path_parent(p) {
                Some(d) => d,
                None => "."@,
            },
            "agentprof-redaction-map.json"@,
        ),
    }
}

/// The redaction-map sidecar path for a report written to `output`
/// (see [`sidecar_path_spec`]).
pub fn sidecar_path(output: Option<&str>) -> (r: String)
    ensures
        r@ == sidecar_path_spec(match output {
            Some(p) => Some(p@),
            None => None,
        }),
{
    proof {
        reveal_strlit("agentprof-redaction-map.json");
        reveal_strlit(".");
    }
    match output {
        None => "agentprof-redaction-map.json".to_owned(),
        Some(p) => {
            let dir = match path_parent(p) {
                Some(d) => d,
                None => ".".to_owned(),
            };
            path_join(dir.as_str(), "agentprof-redaction-map.json")
        },
    }
}

} // verus!
