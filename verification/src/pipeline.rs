//! The per-recording capture-then-download pipeline's decisions: which
//! recordings are skipped because their file already exists, how clashing
//! names are made unique, which observed request is the one replay
//! asset, and the per-item accounting that keeps one item's failure from
//! aborting the batch.

use vstd::prelude::*;
use crate::fsnames::spec_preserve_ext;
use crate::headers::header_view;
use crate::models::{spec_hint, ReplayHeader, ZoomRecordingFile};
use crate::numfmt::{dec_rep, u64_to_dec_chars};
use crate::text::{chars_eq, chars_to_string, ends_with, has_suffix, str_chars, sub_chars};
use crate::urlinfo::{is_replay_asset, spec_is_replay_asset};

verus! {

/// The on-disk name one recording lands under: its base name with the
/// media extension, made file-system safe.
pub open spec fn spec_derived_name(f: ZoomRecordingFile) -> Seq<char> {
    spec_preserve_ext(spec_hint(f) + ".mp4"@)
}

/// Derives the on-disk name of one recording.
pub fn derived_name(f: &ZoomRecordingFile) -> (r: String)
    ensures
        r@ == spec_derived_name(*f),
{
    let hint = f.filename_hint();
    let full = hint.concat(".mp4");
    crate::fsnames::sanitize_filename_preserve_ext(full.as_str())
}

/// Whether `name` occurs among the given names.
pub fn names_contain(names: &Vec<String>, name: &str) -> (r: bool)
    ensures
        r == names@.map_values(|s: String| s@).contains(name@),
{
    let target = str_chars(name);
    let n = names.len();
    let mut i: usize = 0;
    while i < n
        invariant
            i <= n,
            n == names@.len(),
            target@ == name@,
            forall|j: int| 0 <= j < i ==> (#[trigger] names@[j])@ != name@,
        decreases n - i,
    {
        if chars_eq(&str_chars(names[i].as_str()), &target) {
            proof {
                assert(names@.map_values(|s: String| s@)[i as int] == name@);
            }
            return true;
        }
        i += 1;
    }
    proof {
        let nv = names@.map_values(|s: String| s@);
        assert forall|j: int| 0 <= j < nv.len() implies nv[j] != name@ by {
            assert(nv[j] == names@[j]@);
        }
        assert(!nv.contains(name@));
    }
    false
}

/// The recordings whose derived name is not yet on disk.
pub open spec fn fresh_pred(existing: Seq<Seq<char>>) -> spec_fn(ZoomRecordingFile) -> bool {
    |f: ZoomRecordingFile| !existing.contains(spec_derived_name(f))
}

/// Plans an idempotent run: exactly the recordings whose derived name is
/// already present in the destination directory are dropped, so a rerun
/// skips them and performs no work — and no network traffic — for them.
pub fn plan_downloads(files: &Vec<ZoomRecordingFile>, existing: &Vec<String>) -> (r: Vec<
    ZoomRecordingFile,
>)
    ensures
        r@ == files@.filter(fresh_pred(existing@.map_values(|s: String| s@))),
{
    let ghost ex = existing@.map_values(|s: String| s@);
    let mut out: Vec<ZoomRecordingFile> = Vec::new();
    let n = files.len();
    let mut i: usize = 0;
    while i < n
        invariant
            i <= n,
            n == files@.len(),
            ex == existing@.map_values(|s: String| s@),
            out@ == files@.subrange(0, i as int).filter(fresh_pred(ex)),
        decreases n - i,
    {
        let name = derived_name(&files[i]);
        let seen = names_contain(existing, name.as_str());
        proof {
            let pre = files@.subrange(0, i as int);
            let one = seq![files@[i as int]];
            assert(files@.subrange(0, i + 1) =~= pre + one);
            Seq::filter_distributes_over_add(pre, one, fresh_pred(ex));
            reveal_with_fuel(Seq::filter, 2);
            assert(one.drop_last() =~= Seq::<ZoomRecordingFile>::empty());
            assert(!seen == fresh_pred(ex)(files@[i as int]));
        }
        if !seen {
            out.push(dup_file(&files[i]));
        }
        i += 1;
    }
    proof {
        assert(files@.subrange(0, n as int) =~= files@);
    }
    out
}

/// A field-for-field copy of one recording file.
pub fn dup_file(f: &ZoomRecordingFile) -> (r: ZoomRecordingFile)
    ensures
        r == *f,
{
    ZoomRecordingFile {
        meeting_id: f.meeting_id.clone(),
        play_url: f.play_url.clone(),
        download_url: crate::jsonpayload::clone_opt(&f.download_url),
        file_type: crate::jsonpayload::clone_opt(&f.file_type),
        recording_start: crate::jsonpayload::clone_opt(&f.recording_start),
        topic: crate::jsonpayload::clone_opt(&f.topic),
        start_time: crate::jsonpayload::clone_opt(&f.start_time),
        timezone: crate::jsonpayload::clone_opt(&f.timezone),
        meeting_number: crate::jsonpayload::clone_opt(&f.meeting_number),
    }
}

/// `s` with every trailing `.mp4` removed.
pub open spec fn spec_strip_mp4(s: Seq<char>) -> Seq<char>
    decreases s.len(),
{
    if ends_with(s, ".mp4"@) && s.len() >= 4 {
        spec_strip_mp4(s.subrange(0, s.len() - 4))
    } else {
        s
    }
}

/// How many of the first `k` names equal `x`.
pub open spec fn spec_count_eq(names: Seq<Seq<char>>, x: Seq<char>, k: int) -> nat
    decreases k,
{
    if k <= 0 {
        0
    } else {
        spec_count_eq(names, x, k - 1) + (if 0 <= k - 1 < names.len() && names[k - 1] == x {
            1nat
        } else {
            0nat
        })
    }
}

/// The name an item lands under when earlier items already claimed its
/// name: the first keeps it; the `c`-th clash gets `_c` before the
/// extension.
pub open spec fn spec_unique_name(names: Seq<Seq<char>>, i: int) -> Seq<char> {
    let c = spec_count_eq(names, names[i], i);
    if c == 0 {
        names[i]
    } else {
        spec_strip_mp4(names[i]) + "_"@ + dec_rep(c) + ".mp4"@
    }
}

/// Makes clashing derived names unique, in order: repeated names get a
/// numbered suffix before the media extension, exactly as many as have
/// come before.
pub fn unique_names(names: &Vec<String>) -> (r: Vec<String>)
    ensures
        r@.len() == names@.len(),
        forall|i: int|
            0 <= i < names@.len() ==> (#[trigger] r@[i])@ == spec_unique_name(
                names@.map_values(|s: String| s@),
                i,
            ),
{
    let ghost nv = names@.map_values(|s: String| s@);
    let mut r: Vec<String> = Vec::new();
    let n = names.len();
    let mut i: usize = 0;
    while i < n
        invariant
            i <= n,
            n == names@.len(),
            nv == names@.map_values(|s: String| s@),
            r@.len() == i,
            forall|k: int| 0 <= k < i ==> (#[trigger] r@[k])@ == spec_unique_name(nv, k),
        decreases n - i,
    {
        let x = str_chars(names[i].as_str());
        let mut count: u64 = 0;
        let mut j: usize = 0;
        while j < i
            invariant
                j <= i <= n,
                n == names@.len(),
                nv == names@.map_values(|s: String| s@),
                x@ == nv[i as int],
                count == spec_count_eq(nv, nv[i as int], j as int),
                count <= j,
            decreases i - j,
        {
            if chars_eq(&str_chars(names[j].as_str()), &x) {
                count = count + 1;
            }
            j += 1;
        }
        if count == 0 {
            r.push(names[i].clone());
        } else {
            let mut stem = str_chars(names[i].as_str());
            let suffix = str_chars(".mp4");
            proof {
                reveal_strlit(".mp4");
            }
            while has_suffix(&stem, &suffix)
                invariant
                    suffix@ == ".mp4"@,
                    suffix@.len() == 4,
                    spec_strip_mp4(nv[i as int]) == spec_strip_mp4(stem@),
                decreases stem@.len(),
            {
                let keep = stem.len() - 4;
                let shorter = sub_chars(&stem, 0, keep);
                stem = shorter;
            }
            let digits = u64_to_dec_chars(count);
            let mut full = stem;
            full.push('_');
            let ghost base = full@;
            let mut k: usize = 0;
            while k < digits.len()
                invariant
                    k <= digits@.len(),
                    full@ == base + digits@.subrange(0, k as int),
                decreases digits@.len() - k,
            {
                full.push(digits[k]);
                proof {
                    assert(base + digits@.subrange(0, k + 1) =~= (base + digits@.subrange(
                        0,
                        k as int,
                    )).push(digits@[k as int]));
                }
                k += 1;
            }
            full.push('.');
            full.push('m');
            full.push('p');
            full.push('4');
            proof {
                reveal_strlit("_");
                reveal_strlit(".mp4");
                assert(digits@.subrange(0, digits@.len() as int) =~= digits@);
                assert(full@ =~= spec_strip_mp4(nv[i as int]) + "_"@ + dec_rep(count as nat)
                    + ".mp4"@);
            }
            r.push(chars_to_string(&full));
        }
        proof {
            assert((r@[i as int])@ == spec_unique_name(nv, i as int));
        }
        i += 1;
    }
    r
}

/// Selects the one outgoing request that carries a recording's real,
/// ephemeral media URL, and captures its full header set verbatim,
/// unfiltered: this header set is the actual, working, signed grant.
/// Requests to anything else are never selected and never touch the
/// capture.
pub fn match_asset_event(url: &str, request_headers: &Vec<(String, String)>) -> (r: Option<
    ReplayHeader,
>)
    ensures
        r is Some <==> spec_is_replay_asset(url@),
        r matches Some(asset) ==> asset.download_url@ == url@ && header_view(asset.headers@)
            == header_view(request_headers@),
{
    if is_replay_asset(url) {
        let mut headers: Vec<(String, String)> = Vec::new();
        let mut i: usize = 0;
        while i < request_headers.len()
            invariant
                i <= request_headers@.len(),
                headers@ == request_headers@.subrange(0, i as int),
            decreases request_headers@.len() - i,
        {
            headers.push((request_headers[i].0.clone(), request_headers[i].1.clone()));
            proof {
                assert(request_headers@.subrange(0, i + 1) =~= request_headers@.subrange(
                    0,
                    i as int,
                ).push(request_headers@[i as int]));
            }
            i += 1;
        }
        proof {
            assert(request_headers@.subrange(0, request_headers@.len() as int)
                =~= request_headers@);
        }
        Some(ReplayHeader { download_url: url.to_owned(), headers })
    } else {
        None
    }
}

/// How long the pipeline waits for one recording's media request before
/// skipping the item, in seconds. Per-item deadlines are soft: the run
/// continues with the next item.
pub const ASSET_CAPTURE_TIMEOUT_SECS: u64 = 30;

/// How one planned item ended.
#[derive(Debug, Clone, Copy, PartialEq, Eq, Structural)]
pub enum ItemOutcome {
    /// Its file already existed; nothing was done for it.
    AlreadyPresent,
    /// No matching media request was observed within the deadline.
    CaptureTimeout,
    /// Both transport strategies failed.
    TransferFailure,
    /// Re-authentication on its play page failed.
    NavigationFailure,
    /// The media file landed on disk.
    Downloaded,
}

/// The per-item accounting of one pipeline run: one item's failure never
/// aborts the batch — it is counted and the run moves on.
pub struct PipelineTally {
    /// Items skipped because their file already existed.
    pub skipped: usize,
    /// Items whose asset was never observed or whose transfer failed.
    pub failed: usize,
    /// Items downloaded.
    pub succeeded: usize,
}

impl PipelineTally {
    /// A tally with nothing counted.
    pub fn new() -> (r: PipelineTally)
        ensures
            r.skipped == 0 && r.failed == 0 && r.succeeded == 0,
    {
        PipelineTally { skipped: 0, failed: 0, succeeded: 0 }
    }

    /// Counts one skipped item.
    pub fn note_skipped(&mut self)
        requires
            old(self).skipped < usize::MAX,
        ensures
            final(self).skipped == old(self).skipped + 1,
            final(self).failed == old(self).failed,
            final(self).succeeded == old(self).succeeded,
    {
        self.skipped = self.skipped + 1;
    }

    /// Counts one failed item; the caller continues with the next item.
    pub fn note_failed(&mut self)
        requires
            old(self).failed < usize::MAX,
        ensures
            final(self).failed == old(self).failed + 1,
            final(self).skipped == old(self).skipped,
            final(self).succeeded == old(self).succeeded,
    {
        self.failed = self.failed + 1;
    }

    /// Counts one downloaded item.
    pub fn note_succeeded(&mut self)
        requires
            old(self).succeeded < usize::MAX,
        ensures
            final(self).succeeded == old(self).succeeded + 1,
            final(self).skipped == old(self).skipped,
            final(self).failed == old(self).failed,
    {
        self.succeeded = self.succeeded + 1;
    }

    /// Counts one finished item under its outcome; a failure of any kind
    /// is counted and never aborts the batch.
    pub fn note(&mut self, outcome: ItemOutcome)
        requires
            old(self).skipped < usize::MAX,
            old(self).failed < usize::MAX,
            old(self).succeeded < usize::MAX,
        ensures
            outcome == ItemOutcome::AlreadyPresent ==> final(self).skipped == old(self).skipped
                + 1 && final(self).failed == old(self).failed && final(self).succeeded == old(
                self,
            ).succeeded,
            outcome == ItemOutcome::Downloaded ==> final(self).succeeded == old(self).succeeded
                + 1 && final(self).failed == old(self).failed && final(self).skipped == old(
                self,
            ).skipped,
            (outcome == ItemOutcome::CaptureTimeout || outcome == ItemOutcome::TransferFailure
                || outcome == ItemOutcome::NavigationFailure) ==> final(self).failed == old(
                self,
            ).failed + 1 && final(self).skipped == old(self).skipped && final(self).succeeded
                == old(self).succeeded,
    {
        match outcome {
            ItemOutcome::AlreadyPresent => self.note_skipped(),
            ItemOutcome::Downloaded => self.note_succeeded(),
            ItemOutcome::CaptureTimeout => self.note_failed(),
            ItemOutcome::TransferFailure => self.note_failed(),
            ItemOutcome::NavigationFailure => self.note_failed(),
        }
    }

    /// Every item is accounted once: the tally covers the planned run.
    pub fn covers(&self, total: usize) -> (r: bool)
        ensures
            r == (self.skipped + self.failed + self.succeeded == total),
    {
        if self.skipped <= total {
            let rest = total - self.skipped;
            if self.failed <= rest {
                self.succeeded == rest - self.failed
            } else {
                false
            }
        } else {
            false
        }
    }
}

} // verus!
