//! The decisions around the external muxing tool: the argument list for a
//! lossless stream-copy merge, and the reading of the tool's outcome.

use vstd::prelude::*;
use vstd::string::StringExecFns;

verus! {

/// The external muxing tool exited unsuccessfully; `detail` holds the
/// tool's diagnostic output verbatim.
#[derive(Debug)]
pub struct MergeError {
    pub detail: String,
}

/// The argument list handed to the muxing tool: the two inputs, the
/// instruction to copy both codecs without re-encoding, and the output.
pub fn mux_args(video_path: &str, audio_path: &str, output_path: &str) -> (r: Vec<String>)
    ensures
        r@.len() == 9,
        r@[0]@ == "-i"@,
        r@[1]@ == video_path@,
        r@[2]@ == "-i"@,
        r@[3]@ == audio_path@,
        r@[4]@ == "-c:v"@,
        r@[5]@ == "copy"@,
        r@[6]@ == "-c:a"@,
        r@[7]@ == "copy"@,
        r@[8]@ == output_path@,
{
    let mut v: Vec<String> = Vec::new();
    v.push("-i".to_owned());
    v.push(video_path.to_owned());
    v.push("-i".to_owned());
    v.push(audio_path.to_owned());
    v.push("-c:v".to_owned());
    v.push("copy".to_owned());
    v.push("-c:a".to_owned());
    v.push("copy".to_owned());
    v.push(output_path.to_owned());
    v
}

/// Success of the merge is the tool's success exit alone; a failure
/// carries the tool's diagnostic text verbatim.
pub fn interpret_mux_outcome(success: bool, diagnostic: String) -> (r: Result<(), MergeError>)
    ensures
        success <==> r is Ok,
        r matches Err(e) ==> e.detail@ == diagnostic@,
{
    if success {
        Ok(())
    } else {
        Err(MergeError { detail: diagnostic })
    }
}

} // verus!
