//! The external transcode tool: the exact command line a transfer runs,
//! and the judgment of its outcome. Spawning the process happens outside
//! the library.

use vstd::prelude::*;
use crate::headers::header_view;
use crate::text::{chars_to_string, str_chars};

verus! {

/// Failures of the external transcode tool.
#[derive(Debug)]
pub enum FfmpegError {
    /// The tool binary was not found at the configured path.
    NotFound(String),
    /// Launching the tool failed in another way.
    Io(String),
    /// The tool ran and exited non-zero; the transfer falls back to the
    /// direct HTTP path.
    Process { code: Option<i32>, message: String },
}

/// How one attempt to run the tool ended, as observed by the process
/// runner.
pub enum ToolOutcome {
    /// The tool ran to completion.
    Exited { success: bool, code: Option<i32>, stderr: String },
    /// The binary was not found.
    MissingBinary,
    /// Another launch failure, with its text.
    LaunchFailure(String),
}

/// Judges one run of the tool: success passes, a non-zero exit is a
/// `Process` failure (the fallback trigger), a missing binary and launch
/// failures are their own errors.
pub fn interpret_tool_outcome(path: &str, outcome: ToolOutcome) -> (r: Result<(), FfmpegError>)
    ensures
        r is Ok <==> (outcome matches ToolOutcome::Exited { success, .. } && success),
        (outcome matches ToolOutcome::Exited { success: false, code, stderr } ==> (
        r matches Err(e) && (e matches FfmpegError::Process { code: c, message: m } && c == code
            && m == stderr))),
        outcome is MissingBinary ==> (r matches Err(e) && (e matches FfmpegError::NotFound(p)
            && p@ == path@)),
        outcome is LaunchFailure ==> (r matches Err(e) && e is Io),
{
    match outcome {
        ToolOutcome::Exited { success, code, stderr } => {
            if success {
                Ok(())
            } else {
                Err(FfmpegError::Process { code, message: stderr })
            }
        },
        ToolOutcome::MissingBinary => Err(FfmpegError::NotFound(path.to_owned())),
        ToolOutcome::LaunchFailure(text) => Err(FfmpegError::Io(text)),
    }
}

/// The header block handed to the tool: each pair as `name: value`
/// followed by a carriage return and newline.
pub open spec fn spec_header_blob(hs: Seq<(Seq<char>, Seq<char>)>) -> Seq<char>
    decreases hs.len(),
{
    if hs.len() == 0 {
        Seq::empty()
    } else {
        spec_header_blob(hs.drop_last()) + hs.last().0 + ": "@ + hs.last().1 + "\r\n"@
    }
}

/// Builds the tool's header block from a captured header set, verbatim
/// and in order.
pub fn header_blob(headers: &Vec<(String, String)>) -> (r: String)
    ensures
        r@ == spec_header_blob(header_view(headers@)),
{
    let mut out: Vec<char> = Vec::new();
    let mut i: usize = 0;
    while i < headers.len()
        invariant
            i <= headers@.len(),
            out@ == spec_header_blob(header_view(headers@).subrange(0, i as int)),
        decreases headers@.len() - i,
    {
        let name = str_chars(headers[i].0.as_str());
        let value = str_chars(headers[i].1.as_str());
        let mut j: usize = 0;
        let ghost base = out@;
        while j < name.len()
            invariant
                j <= name@.len(),
                out@ == base + name@.subrange(0, j as int),
            decreases name@.len() - j,
        {
            out.push(name[j]);
            proof {
                assert(base + name@.subrange(0, j + 1) =~= (base + name@.subrange(
                    0,
                    j as int,
                )).push(name@[j as int]));
            }
            j += 1;
        }
        out.push(':');
        out.push(' ');
        let mut k: usize = 0;
        let ghost base2 = out@;
        while k < value.len()
            invariant
                k <= value@.len(),
                out@ == base2 + value@.subrange(0, k as int),
            decreases value@.len() - k,
        {
            out.push(value[k]);
            proof {
                assert(base2 + value@.subrange(0, k + 1) =~= (base2 + value@.subrange(
                    0,
                    k as int,
                )).push(value@[k as int]));
            }
            k += 1;
        }
        out.push('\r');
        out.push('\n');
        proof {
            reveal_strlit(": ");
            reveal_strlit("\r\n");
            let hv = header_view(headers@);
            assert(name@.subrange(0, name@.len() as int) =~= name@);
            assert(value@.subrange(0, value@.len() as int) =~= value@);
            assert(hv.subrange(0, i + 1).drop_last() =~= hv.subrange(0, i as int));
            assert(hv.subrange(0, i + 1).last() == (headers@[i as int].0@, headers@[i as int].1@));
            assert(out@ =~= spec_header_blob(hv.subrange(0, i + 1)));
        }
        i += 1;
    }
    proof {
        assert(header_view(headers@).subrange(0, headers@.len() as int) =~= header_view(
            headers@,
        ));
    }
    chars_to_string(&out)
}

/// The argument views of one stream-copy run of the tool: overwrite the
/// staging file, quiet logging, the captured headers, the signed URL as
/// input, streams copied byte-for-byte into the staging file.
pub open spec fn spec_tool_args(
    blob: Seq<char>,
    url: Seq<char>,
    staging: Seq<char>,
) -> Seq<Seq<char>> {
    seq![
        "-y"@,
        "-loglevel"@,
        "error"@,
        "-hide_banner"@,
        "-headers"@,
        blob,
        "-i"@,
        url,
        "-c"@,
        "copy"@,
        "-map"@,
        "0"@,
        "-movflags"@,
        "+faststart"@,
        staging,
    ]
}

/// The view of an argument list.
pub open spec fn args_view(args: Seq<String>) -> Seq<Seq<char>> {
    args.map_values(|a: String| a@)
}

/// Builds the tool's full argument list for one transfer. The output is
/// written to the staging name and only renamed into place by the caller
/// after success.
pub fn tool_args(headers: &Vec<(String, String)>, url: &str, staging: &str) -> (r: Vec<String>)
    ensures
        args_view(r@) =~= spec_tool_args(
            spec_header_blob(header_view(headers@)),
            url@,
            staging@,
        ),
{
    let blob = header_blob(headers);
    let mut r: Vec<String> = Vec::new();
    r.push("-y".to_owned());
    r.push("-loglevel".to_owned());
    r.push("error".to_owned());
    r.push("-hide_banner".to_owned());
    r.push("-headers".to_owned());
    r.push(blob);
    r.push("-i".to_owned());
    r.push(url.to_owned());
    r.push("-c".to_owned());
    r.push("copy".to_owned());
    r.push("-map".to_owned());
    r.push("0".to_owned());
    r.push("-movflags".to_owned());
    r.push("+faststart".to_owned());
    r.push(staging.to_owned());
    r
}

} // verus!
