//! Header-faithful media transfer decisions: the cookie header rebuilt
//! for the asset's host, the fallback from the transcode tool to a direct
//! HTTP transfer, and the header set of a resumed transfer. The transfers
//! themselves happen outside the library.

use vstd::prelude::*;
use crate::ffmpeg::FfmpegError;
use crate::headers::{header_view, name_ieq};
use crate::models::{ReplayHeader, ZoomCookie};
use crate::numfmt::{dec_rep, u64_to_dec_chars};
use crate::text::{chars_to_string, ends_with, has_suffix, str_chars, sub_chars};
use crate::urlinfo::{parse_url, spec_url_parts};

verus! {

/// A stored cookie is sent to `host` when the host ends in the cookie's
/// domain, a leading dot standing for any subdomain.
pub open spec fn spec_cookie_domain_match(host: Seq<char>, domain: Seq<char>) -> bool {
    ||| ends_with(host, domain)
    ||| (domain.len() > 0 && domain[0] == '.' && ends_with(
        host,
        domain.subrange(1, domain.len() as int),
    ))
}

/// Whether a stored cookie's domain matches the asset host.
pub fn cookie_domain_match(host: &Vec<char>, domain: &str) -> (r: bool)
    ensures
        r == spec_cookie_domain_match(host@, domain@),
{
    let d = str_chars(domain);
    if has_suffix(host, &d) {
        return true;
    }
    if d.len() > 0 && d[0] == '.' {
        let tail = sub_chars(&d, 1, d.len());
        has_suffix(host, &tail)
    } else {
        false
    }
}

/// The `name=value` text of one cookie.
pub open spec fn spec_cookie_pair(c: ZoomCookie) -> Seq<char> {
    c.name@ + "="@ + c.value@
}

/// The `name=value` parts of the cookies matching `host`, in order.
pub open spec fn spec_cookie_parts(cs: Seq<ZoomCookie>, host: Seq<char>) -> Seq<Seq<char>>
    decreases cs.len(),
{
    if cs.len() == 0 {
        Seq::empty()
    } else {
        spec_cookie_parts(cs.drop_last(), host) + if spec_cookie_domain_match(
            host,
            cs.last().domain@,
        ) {
            seq![spec_cookie_pair(cs.last())]
        } else {
            Seq::empty()
        }
    }
}

/// Parts joined by `; `.
pub open spec fn spec_joined(parts: Seq<Seq<char>>) -> Seq<char>
    decreases parts.len(),
{
    if parts.len() == 0 {
        Seq::empty()
    } else if parts.len() == 1 {
        parts[0]
    } else {
        spec_joined(parts.drop_last()) + "; "@ + parts.last()
    }
}

/// The cookie header sent with a rebuilt transfer to `host`: the
/// matching stored cookies as `name=value`, joined by `; `; no header
/// when none match.
pub open spec fn spec_cookie_header(cs: Seq<ZoomCookie>, host: Seq<char>) -> Seq<char> {
    spec_joined(spec_cookie_parts(cs, host))
}

/// Builds the cookie header for the given asset host.
pub fn cookie_header_value(cookies: &Vec<ZoomCookie>, host: &Vec<char>) -> (r: String)
    ensures
        r@ == spec_cookie_header(cookies@, host@),
{
    let mut parts: Vec<Vec<char>> = Vec::new();
    let n = cookies.len();
    let mut i: usize = 0;
    while i < n
        invariant
            i <= n,
            n == cookies@.len(),
            parts@.map_values(|p: Vec<char>| p@) == spec_cookie_parts(
                cookies@.subrange(0, i as int),
                host@,
            ),
        decreases n - i,
    {
        proof {
            assert(cookies@.subrange(0, i + 1).drop_last() =~= cookies@.subrange(0, i as int));
            assert(cookies@.subrange(0, i + 1).last() == cookies@[i as int]);
        }
        if cookie_domain_match(host, cookies[i].domain.as_str()) {
            let mut part = str_chars(cookies[i].name.as_str());
            part.push('=');
            let val = str_chars(cookies[i].value.as_str());
            let ghost base = part@;
            let mut k: usize = 0;
            while k < val.len()
                invariant
                    k <= val@.len(),
                    part@ == base + val@.subrange(0, k as int),
                decreases val@.len() - k,
            {
                part.push(val[k]);
                proof {
                    assert(base + val@.subrange(0, k + 1) =~= (base + val@.subrange(
                        0,
                        k as int,
                    )).push(val@[k as int]));
                }
                k += 1;
            }
            proof {
                reveal_strlit("=");
                assert(val@.subrange(0, val@.len() as int) =~= val@);
                assert(part@ =~= spec_cookie_pair(cookies@[i as int]));
            }
            parts.push(part);
            proof {
                assert(parts@.map_values(|p: Vec<char>| p@) =~= spec_cookie_parts(
                    cookies@.subrange(0, i + 1),
                    host@,
                ));
            }
        } else {
            proof {
                assert(parts@.map_values(|p: Vec<char>| p@) =~= spec_cookie_parts(
                    cookies@.subrange(0, i + 1),
                    host@,
                ));
            }
        }
        i += 1;
    }
    proof {
        assert(cookies@.subrange(0, n as int) =~= cookies@);
    }
    let mut out: Vec<char> = Vec::new();
    let mut j: usize = 0;
    while j < parts.len()
        invariant
            j <= parts@.len(),
            parts@.map_values(|p: Vec<char>| p@) == spec_cookie_parts(cookies@, host@),
            out@ == spec_joined(parts@.map_values(|p: Vec<char>| p@).subrange(0, j as int)),
        decreases parts@.len() - j,
    {
        if j > 0 {
            out.push(';');
            out.push(' ');
        }
        let part = &parts[j];
        let ghost base = out@;
        let mut k: usize = 0;
        while k < part.len()
            invariant
                k <= part@.len(),
                out@ == base + part@.subrange(0, k as int),
            decreases part@.len() - k,
        {
            out.push(part[k]);
            proof {
                assert(base + part@.subrange(0, k + 1) =~= (base + part@.subrange(
                    0,
                    k as int,
                )).push(part@[k as int]));
            }
            k += 1;
        }
        proof {
            reveal_strlit("; ");
            let pv = parts@.map_values(|p: Vec<char>| p@);
            assert(part@.subrange(0, part@.len() as int) =~= part@);
            assert(pv.subrange(0, j + 1).drop_last() =~= pv.subrange(0, j as int));
            assert(pv.subrange(0, j + 1).last() == pv[j as int]);
            assert(out@ =~= spec_joined(pv.subrange(0, j + 1)));
        }
        j += 1;
    }
    proof {
        let pv = parts@.map_values(|p: Vec<char>| p@);
        assert(pv.subrange(0, pv.len() as int) =~= pv);
    }
    chars_to_string(&out)
}

/// The transfer header set of one captured asset: the asset's header set
/// verbatim, and — when any stored cookie matches the asset host — a
/// `Cookie` header rebuilt from the matching cookies. A URL that does
/// not parse matches as an empty host.
pub fn build_ffmpeg_headers(
    asset: &ReplayHeader,
    cookies: &Vec<ZoomCookie>,
    download_url: &str,
) -> (r: Vec<(String, String)>)
    ensures
        ({
            let host = match spec_url_parts(download_url@) {
                Some(parts) => parts.host@,
                None => Seq::empty(),
            };
            if spec_cookie_parts(cookies@, host).len() > 0 {
                header_view(r@) == header_view(asset.headers@) + seq![
                    ("Cookie"@, spec_cookie_header(cookies@, host)),
                ]
            } else {
                header_view(r@) == header_view(asset.headers@)
            }
        }),
{
    let host: Vec<char> = match parse_url(download_url) {
        Some(parts) => str_chars(parts.host.as_str()),
        None => Vec::new(),
    };
    proof {
        assert(host@ =~= (match spec_url_parts(download_url@) {
            Some(parts) => parts.host@,
            None => Seq::empty(),
        }));
    }
    let mut r: Vec<(String, String)> = Vec::new();
    let mut i: usize = 0;
    while i < asset.headers.len()
        invariant
            i <= asset.headers@.len(),
            r@ == asset.headers@.subrange(0, i as int),
        decreases asset.headers@.len() - i,
    {
        r.push((asset.headers[i].0.clone(), asset.headers[i].1.clone()));
        proof {
            assert(asset.headers@.subrange(0, i + 1) =~= asset.headers@.subrange(
                0,
                i as int,
            ).push(asset.headers@[i as int]));
        }
        i += 1;
    }
    proof {
        assert(asset.headers@.subrange(0, asset.headers@.len() as int) =~= asset.headers@);
    }
    let has_match = {
        let mut any = false;
        let mut k: usize = 0;
        while k < cookies.len()
            invariant
                k <= cookies@.len(),
                any == (spec_cookie_parts(cookies@.subrange(0, k as int), host@).len() > 0),
            decreases cookies@.len() - k,
        {
            proof {
                assert(cookies@.subrange(0, k + 1).drop_last() =~= cookies@.subrange(0, k as int));
                assert(cookies@.subrange(0, k + 1).last() == cookies@[k as int]);
            }
            if cookie_domain_match(&host, cookies[k].domain.as_str()) {
                any = true;
            }
            k += 1;
        }
        proof {
            assert(cookies@.subrange(0, cookies@.len() as int) =~= cookies@);
        }
        any
    };
    if has_match {
        let value = cookie_header_value(cookies, &host);
        let ghost base = header_view(r@);
        r.push(("Cookie".to_owned(), value));
        proof {
            assert(header_view(r@) =~= base + seq![("Cookie"@, spec_cookie_header(
                cookies@,
                host@,
            ))]);
        }
    }
    r
}

/// What a transfer does after the transcode tool fails: a non-zero exit
/// falls back to the direct HTTP path with the same header set; any
/// other tool failure is reported as the transfer's outcome.
pub enum TransferDecision {
    /// Retry the same URL and headers over plain HTTP.
    HttpFallback,
    /// Report the tool error; no fallback.
    Fail,
}

/// Decides the fallback: exactly a `Process` failure (the tool ran and
/// exited non-zero) triggers the HTTP path.
pub fn after_tool_failure(err: &FfmpegError) -> (r: TransferDecision)
    ensures
        err is Process <==> r is HttpFallback,
        !(err is Process) <==> r is Fail,
{
    match err {
        FfmpegError::Process { .. } => TransferDecision::HttpFallback,
        _ => TransferDecision::Fail,
    }
}

/// Not a `Range` header, ignoring case.
pub open spec fn not_range_pred() -> spec_fn((Seq<char>, Seq<char>)) -> bool {
    |p: (Seq<char>, Seq<char>)| !name_ieq(p.0, "range"@)
}

/// The `Range` value of a transfer resuming at `from`.
pub open spec fn spec_range_value(from: u64) -> Seq<char> {
    "bytes="@ + dec_rep(from as nat) + "-"@
}

/// The header set of the direct HTTP transfer: the captured set with any
/// `Range` header dropped (it would conflict with resumption), plus a
/// fresh `Range` header when a partial staging file of `resume_from`
/// bytes is being continued.
pub fn resume_headers(headers: &Vec<(String, String)>, resume_from: u64) -> (r: Vec<
    (String, String),
>)
    ensures
        resume_from == 0 ==> header_view(r@) == header_view(headers@).filter(not_range_pred()),
        resume_from > 0 ==> header_view(r@) == header_view(headers@).filter(not_range_pred())
            + seq![("Range"@, spec_range_value(resume_from))],
{
    let mut r: Vec<(String, String)> = Vec::new();
    let n = headers.len();
    let range_word = str_chars("range");
    let mut i: usize = 0;
    while i < n
        invariant
            i <= n,
            n == headers@.len(),
            range_word@ == "range"@,
            header_view(r@) == header_view(headers@.subrange(0, i as int)).filter(
                not_range_pred(),
            ),
        decreases n - i,
    {
        let low = crate::text::lowered(&str_chars(headers[i].0.as_str()));
        let keep = !crate::text::chars_eq(&low, &range_word);
        proof {
            let hv = crate::headers::header_view(headers@.subrange(0, i + 1));
            let pre = crate::headers::header_view(headers@.subrange(0, i as int));
            let one = seq![(headers@[i as int].0@, headers@[i as int].1@)];
            assert(hv =~= pre + one);
            Seq::filter_distributes_over_add(pre, one, not_range_pred());
            reveal_with_fuel(Seq::filter, 2);
            assert(one.drop_last() =~= Seq::<(Seq<char>, Seq<char>)>::empty());
            reveal_strlit("range");
            assert(crate::text::lower_seq("range"@) =~= "range"@);
            assert(keep == not_range_pred()(one[0]));
        }
        if keep {
            r.push((headers[i].0.clone(), headers[i].1.clone()));
            proof {
                assert(header_view(r@) =~= header_view(headers@.subrange(0, i + 1)).filter(
                    not_range_pred(),
                ));
            }
        } else {
            proof {
                assert(header_view(r@) =~= header_view(headers@.subrange(0, i + 1)).filter(
                    not_range_pred(),
                ));
            }
        }
        i += 1;
    }
    proof {
        assert(headers@.subrange(0, n as int) =~= headers@);
    }
    if resume_from > 0 {
        let mut value = str_chars("bytes=");
        let digits = u64_to_dec_chars(resume_from);
        let ghost base = value@;
        let mut k: usize = 0;
        while k < digits.len()
            invariant
                k <= digits@.len(),
                value@ == base + digits@.subrange(0, k as int),
            decreases digits@.len() - k,
        {
            value.push(digits[k]);
            proof {
                assert(base + digits@.subrange(0, k + 1) =~= (base + digits@.subrange(
                    0,
                    k as int,
                )).push(digits@[k as int]));
            }
            k += 1;
        }
        value.push('-');
        proof {
            reveal_strlit("-");
            assert(digits@.subrange(0, digits@.len() as int) =~= digits@);
            assert(value@ =~= spec_range_value(resume_from));
        }
        let ghost base2 = header_view(r@);
        r.push(("Range".to_owned(), chars_to_string(&value)));
        proof {
            assert(header_view(r@) =~= base2 + seq![("Range"@, spec_range_value(resume_from))]);
        }
    }
    r
}

/// The stored replay asset captured for one play-page URL, when a prior
/// sniff captured one: the first stored entry under that URL.
pub fn asset_for<'a>(assets: &'a Vec<(String, ReplayHeader)>, play_url: &str) -> (r: Option<
    &'a ReplayHeader,
>)
    ensures
        match r {
            Some(a) => exists|i: int|
                0 <= i < assets@.len() && (#[trigger] assets@[i]).0@ == play_url@ && *a
                    == assets@[i].1,
            None => forall|i: int|
                0 <= i < assets@.len() ==> (#[trigger] assets@[i]).0@ != play_url@,
        },
{
    let target = str_chars(play_url);
    let mut i: usize = 0;
    while i < assets.len()
        invariant
            i <= assets@.len(),
            target@ == play_url@,
            forall|j: int| 0 <= j < i ==> (#[trigger] assets@[j]).0@ != play_url@,
        decreases assets@.len() - i,
    {
        if crate::text::chars_eq(&str_chars(assets[i].0.as_str()), &target) {
            return Some(&assets[i].1);
        }
        i += 1;
    }
    None
}

/// The staging-file name used while a media file is being written: the
/// destination name with a reserved suffix appended. A successful
/// transfer renames it into place; a failed one leaves it for the next
/// run's resume logic.
pub fn temp_path(dest: &str) -> (r: String)
    ensures
        r@ == dest@ + ".part"@,
{
    let mut s = dest.to_owned();
    s.append(".part");
    s
}

/// An acceptable status for the direct HTTP transfer: success, including
/// the partial-content answer to a resumed request.
pub fn http_transfer_ok(status: u16) -> (r: bool)
    ensures
        r == (200 <= status < 300 || status == 206),
{
    (200 <= status && status < 300) || status == 206
}

} // verus!
