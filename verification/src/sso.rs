//! Heuristics of the multi-stage single-sign-on flow: recognizing the
//! host LMS's login page, the identity provider's pages and the
//! provider's own login screen, choosing a remembered-account tile, and
//! deciding when navigation has arrived. Clicking and typing happen
//! outside the library; every observed text is judged here.

use vstd::prelude::*;
use crate::text::{
    contains_seq, contains_sub, has_prefix, lower_seq, lowered, str_chars, upper_seq, uppered,
};

verus! {

/// The host LMS's own login page, by its URL.
pub fn is_lms_login_url(url: &str) -> (r: bool)
    ensures
        r == contains_seq(url@, "/login/canvas"@),
{
    contains_sub(&str_chars(url), &str_chars("/login/canvas"))
}

/// The identity provider's page, by its URL.
pub fn is_idp_url(url: &str) -> (r: bool)
    ensures
        r == contains_seq(url@, "login.microsoftonline.com"@),
{
    contains_sub(&str_chars(url), &str_chars("login.microsoftonline.com"))
}

/// The SSO-initiation control on the LMS login page, by its visible
/// text, matched case-insensitively against the known phrase.
pub fn is_sso_button_text(text: &str) -> (r: bool)
    ensures
        r == contains_seq(upper_seq(text@), "ESTUDIANTES Y DOCENTES"@),
{
    contains_sub(&uppered(&str_chars(text)), &str_chars("ESTUDIANTES Y DOCENTES"))
}

/// The provider's own login screen, by URL or page markers.
pub fn is_provider_login_page(url: &str, html: &str) -> (r: bool)
    ensures
        r == (contains_seq(url@, "zoom.us/signin"@) || contains_seq(
            html@,
            "zm-login-methods__item"@,
        ) || contains_seq(html@, "Sign in with Microsoft"@)),
{
    contains_sub(&str_chars(url), &str_chars("zoom.us/signin")) || contains_sub(
        &str_chars(html),
        &str_chars("zm-login-methods__item"),
    ) || contains_sub(&str_chars(html), &str_chars("Sign in with Microsoft"))
}

/// The player page is already authenticated: a playback URL with no
/// login markers left in the page.
pub fn is_player_loaded(url: &str, html: &str) -> (r: bool)
    ensures
        r == (contains_seq(url@, "zoom.us/rec/play"@) && !contains_seq(
            html@,
            "zm-login-methods__item"@,
        ) && !contains_seq(html@, "Sign in with Microsoft"@)),
{
    contains_sub(&str_chars(url), &str_chars("zoom.us/rec/play")) && !contains_sub(
        &str_chars(html),
        &str_chars("zm-login-methods__item"),
    ) && !contains_sub(&str_chars(html), &str_chars("Sign in with Microsoft"))
}

/// A login-method entry that routes through the identity provider.
pub fn is_idp_method_text(text: &str) -> (r: bool)
    ensures
        r == contains_seq(lower_seq(text@), "microsoft"@),
{
    contains_sub(&lowered(&str_chars(text)), &str_chars("microsoft"))
}

/// Navigation has returned to the provider after authentication.
pub fn is_back_on_provider(url: &str) -> (r: bool)
    ensures
        r == (contains_seq(url@, "zoom.us"@) && !contains_seq(url@, "signin"@)),
{
    contains_sub(&str_chars(url), &str_chars("zoom.us")) && !contains_sub(
        &str_chars(url),
        &str_chars("signin"),
    )
}

/// The "stay signed in" interstitial is present.
pub fn has_stay_signed_in_prompt(html: &str) -> (r: bool)
    ensures
        r == contains_seq(html@, "Stay signed in?"@),
{
    contains_sub(&str_chars(html), &str_chars("Stay signed in?"))
}

/// An account-picker tile that is only a sign-in-options control, in
/// either locale; never selected.
pub open spec fn spec_tile_skip(low: Seq<char>) -> bool {
    ||| contains_seq(low, "sign-in options"@)
    ||| contains_seq(low, "other ways to sign in"@)
    ||| contains_seq(low, "otros metodos"@)
    ||| contains_seq(low, "otras formas"@)
}

/// The "use another account" tile, in either locale.
pub open spec fn spec_tile_other(low: Seq<char>) -> bool {
    &&& !spec_tile_skip(low)
    &&& (contains_seq(low, "use another account"@) || contains_seq(low, "usar otra cuenta"@)
        || contains_seq(low, "otra cuenta"@))
}

/// A remembered-account tile: it shows an address.
pub open spec fn spec_tile_email(low: Seq<char>) -> bool {
    &&& !spec_tile_skip(low)
    &&& !spec_tile_other(low)
    &&& contains_seq(low, "@"@)
}

/// A remembered-account tile showing the configured address.
pub open spec fn spec_tile_match(low: Seq<char>, email: Option<Seq<char>>) -> bool {
    &&& spec_tile_email(low)
    &&& (email matches Some(e) && contains_seq(low, e))
}

/// The first tile (from `i` on) whose lowered text satisfies the tile
/// predicate selected by `which`: 0 matches the configured address, 1 is
/// the first address tile, 2 the first use-another-account tile.
pub open spec fn spec_first_tile(
    lows: Seq<Seq<char>>,
    email: Option<Seq<char>>,
    which: int,
    i: int,
) -> Option<int>
    decreases lows.len() - i,
{
    if i < 0 || i >= lows.len() {
        None
    } else if (which == 0 && spec_tile_match(lows[i], email)) || (which == 1 && spec_tile_email(
        lows[i],
    )) || (which == 2 && spec_tile_other(lows[i])) {
        Some(i)
    } else {
        spec_first_tile(lows, email, which, i + 1)
    }
}

/// The tile the account picker step clicks: the tile showing the
/// configured address when one is shown; else, with an address
/// configured, the use-another-account tile or failing that the first
/// remembered address; with none configured, the first remembered
/// address.
pub open spec fn spec_selected_tile(lows: Seq<Seq<char>>, email: Option<Seq<char>>) -> Option<
    int,
> {
    match spec_first_tile(lows, email, 0, 0) {
        Some(i) => Some(i),
        None => match email {
            Some(_) => match spec_first_tile(lows, email, 2, 0) {
                Some(i) => Some(i),
                None => spec_first_tile(lows, email, 1, 0),
            },
            None => spec_first_tile(lows, email, 1, 0),
        },
    }
}

fn tile_skip(low: &Vec<char>) -> (r: bool)
    ensures
        r == spec_tile_skip(low@),
{
    contains_sub(low, &str_chars("sign-in options")) || contains_sub(
        low,
        &str_chars("other ways to sign in"),
    ) || contains_sub(low, &str_chars("otros metodos")) || contains_sub(
        low,
        &str_chars("otras formas"),
    )
}

fn tile_other(low: &Vec<char>) -> (r: bool)
    ensures
        r == spec_tile_other(low@),
{
    !tile_skip(low) && (contains_sub(low, &str_chars("use another account")) || contains_sub(
        low,
        &str_chars("usar otra cuenta"),
    ) || contains_sub(low, &str_chars("otra cuenta")))
}

fn tile_email(low: &Vec<char>) -> (r: bool)
    ensures
        r == spec_tile_email(low@),
{
    !tile_skip(low) && !tile_other(low) && contains_sub(low, &str_chars("@"))
}

/// Chooses the account-picker tile to click, from the tiles' visible
/// texts and the configured address. Texts are compared lowercased; the
/// configured address is lowercased the same way.
pub fn select_account_tile(texts: &Vec<String>, email: Option<&String>) -> (r: Option<usize>)
    ensures
        (match r {
            Some(i) => Some(i as int),
            None => None,
        }) == spec_selected_tile(
            texts@.map_values(|t: String| lower_seq(t@)),
            match email {
                Some(e) => Some(lower_seq(e@)),
                None => None,
            },
        ),
{
    let ghost lows = texts@.map_values(|t: String| lower_seq(t@));
    let ghost em: Option<Seq<char>> = match email {
        Some(e) => Some(lower_seq(e@)),
        None => None,
    };
    let email_low: Option<Vec<char>> = match email {
        Some(e) => Some(lowered(&str_chars(e.as_str()))),
        None => None,
    };
    let n = texts.len();
    let mut matching: Option<usize> = None;
    let mut first_email: Option<usize> = None;
    let mut first_other: Option<usize> = None;
    let mut i: usize = 0;
    while i < n
        invariant
            i <= n,
            n == texts@.len(),
            lows == texts@.map_values(|t: String| lower_seq(t@)),
            em == (match email_low {
                Some(ref e) => Some(e@),
                None => None,
            }),
            (match email_low {
                Some(ref e) => email matches Some(e2) && e@ == lower_seq(e2@),
                None => email is None,
            }),
            (match matching {
                Some(k) => Some(k as int),
                None => None,
            }) == spec_first_tile(lows, em, 0, 0) || (matching is None && spec_first_tile(
                lows,
                em,
                0,
                0,
            ) == spec_first_tile(lows, em, 0, i as int)),
            matching is None ==> spec_first_tile(lows, em, 0, 0) == spec_first_tile(
                lows,
                em,
                0,
                i as int,
            ),
            (match first_email {
                Some(k) => Some(k as int),
                None => None,
            }) == spec_first_tile(lows, em, 1, 0) || (first_email is None && spec_first_tile(
                lows,
                em,
                1,
                0,
            ) == spec_first_tile(lows, em, 1, i as int)),
            first_email is None ==> spec_first_tile(lows, em, 1, 0) == spec_first_tile(
                lows,
                em,
                1,
                i as int,
            ),
            (match first_other {
                Some(k) => Some(k as int),
                None => None,
            }) == spec_first_tile(lows, em, 2, 0) || (first_other is None && spec_first_tile(
                lows,
                em,
                2,
                0,
            ) == spec_first_tile(lows, em, 2, i as int)),
            first_other is None ==> spec_first_tile(lows, em, 2, 0) == spec_first_tile(
                lows,
                em,
                2,
                i as int,
            ),
        decreases n - i,
    {
        let low = lowered(&str_chars(texts[i].as_str()));
        proof {
            assert(lows[i as int] == lower_seq(texts@[i as int]@));
            assert(low@ == lows[i as int]);
        }
        let is_match = match &email_low {
            Some(e) => tile_email(&low) && contains_sub(&low, e),
            None => false,
        };
        if matching.is_none() {
            if is_match {
                matching = Some(i);
            } else {
                proof {
                    assert(!spec_tile_match(lows[i as int], em));
                }
            }
        }
        if first_email.is_none() {
            if tile_email(&low) {
                first_email = Some(i);
            }
        }
        if first_other.is_none() {
            if tile_other(&low) {
                first_other = Some(i);
            }
        }
        i += 1;
    }
    proof {
        assert(spec_first_tile(lows, em, 0, n as int) is None);
        assert(spec_first_tile(lows, em, 1, n as int) is None);
        assert(spec_first_tile(lows, em, 2, n as int) is None);
    }
    match matching {
        Some(i) => Some(i),
        None => match email_low {
            Some(_) => match first_other {
                Some(i) => Some(i),
                None => first_email,
            },
            None => first_email,
        },
    }
}

} // verus!
