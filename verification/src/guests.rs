//! The server's rules for guests: which names they may use, what a guest is
//! called before choosing a name, and how a connecting guest is registered.
use crate::display_name::{
    capped, is_name_char, revalidating_a_name_keeps_it, valid_display_name, DisplayName,
    DISPLAY_NAME_MAX_LEN,
};
use crate::text::{str_trim, string_of, string_push, trimmed};
use vstd::prelude::*;
use vstd::string::*;

verus! {

/// How many characters of the caller's identity a default guest name shows.
pub const GUEST_SUFFIX_LEN: usize = 8;

/// Whether `c` is alphanumeric in Unicode's sense: what `char::is_alphanumeric`
/// returns, which is `true` when `c` has the `Alphabetic` property or a
/// numeric general category.
pub uninterp spec fn unicode_alphanumeric(c: char) -> bool;

/// Calls `char::is_alphanumeric`. Among ASCII characters, exactly the letters
/// and digits are alphanumeric.
#[verifier::external_body]
fn char_is_alphanumeric(c: char) -> (r: bool)
    ensures
        r == unicode_alphanumeric(c),
        c < '\u{80}' ==> (r <==> (('a' <= c && c <= 'z') || ('A' <= c && c <= 'Z') || ('0' <= c
            && c <= '9'))),
{
    c.is_alphanumeric()
}

/// A character that a guest name may hold: a Unicode alphanumeric, `_` or `-`.
pub open spec fn is_guest_char(c: char) -> bool {
    unicode_alphanumeric(c) || c == '_' || c == '-'
}

/// The guest-name characters of `s`, in order.
pub open spec fn guest_chars(s: Seq<char>) -> Seq<char> {
    s.filter(|c: char| is_guest_char(c))
}

/// What [`sanitize_guest_name`] answers for `candidate`: once trimmed, an
/// error when nothing is left or nothing left is a guest-name character;
/// otherwise its first [`DISPLAY_NAME_MAX_LEN`] guest-name characters.
pub open spec fn sanitized_guest_name(candidate: Seq<char>) -> Result<Seq<char>, Seq<char>> {
    let t = trimmed(candidate);
    if t.len() == 0 {
        Err("guest name cannot be empty"@)
    } else if guest_chars(t).len() == 0 {
        Err("guest name must contain letters or numbers"@)
    } else {
        Ok(capped(guest_chars(t)))
    }
}

/// After the loop of [`sanitize_guest_name`] has looked at `t[..i]`: what it
/// kept is the capped list of guest-name characters of `t`.
proof fn lemma_capped_prefix_guest_chars(t: Seq<char>, i: int)
    requires
        0 <= i <= t.len(),
        i == t.len() ==> guest_chars(t.take(i)).len() <= DISPLAY_NAME_MAX_LEN,
        i < t.len() ==> guest_chars(t.take(i)).len() == DISPLAY_NAME_MAX_LEN,
    ensures
        capped(guest_chars(t)) == guest_chars(t.take(i)),
        guest_chars(t).len() == 0 <==> guest_chars(t.take(i)).len() == 0,
{
    assert(t == t.take(i) + t.skip(i));
    Seq::filter_distributes_over_add(t.take(i), t.skip(i), |c: char| is_guest_char(c));
    if i == t.len() {
        assert(t.skip(i).len() == 0);
        assert(t.skip(i).filter(|c: char| is_guest_char(c)) == t.skip(i)) by {
            reveal_with_fuel(Seq::filter, 1);
        }
        assert(guest_chars(t) == guest_chars(t.take(i)));
    } else {
        let a = guest_chars(t.take(i));
        let b = guest_chars(t.skip(i));
        assert((a + b).take(DISPLAY_NAME_MAX_LEN as int) == a);
    }
}

/// Validates and normalizes a guest name to alphanumeric, `_`, and `-` (max 24 chars).
pub fn sanitize_guest_name(candidate: String) -> (r: Result<String, String>)
    ensures
        match sanitized_guest_name(candidate@) {
            Ok(n) => r matches Ok(s) && s@ == n,
            Err(m) => r matches Err(s) && s@ == m,
        },
{
    let trimmed_candidate = str_trim(candidate.as_str());
    if trimmed_candidate.is_empty() {
        return Err(string_of("guest name cannot be empty"));
    }
    let ghost t = trimmed_candidate@;
    let n = trimmed_candidate.unicode_len();
    let mut normalized = String::new();
    let mut kept: usize = 0;
    let mut i: usize = 0;
    while i < n && kept < DISPLAY_NAME_MAX_LEN
        invariant
            t == trimmed_candidate@,
            n == t.len(),
            i <= n,
            kept == normalized@.len(),
            kept <= DISPLAY_NAME_MAX_LEN,
            normalized@ == guest_chars(t.take(i as int)),
        decreases n - i,
    {
        let c = trimmed_candidate.get_char(i);
        proof {
            assert(t.take(i + 1) == t.take(i as int).push(c));
            reveal_with_fuel(Seq::filter, 1);
            assert(t.take(i + 1).drop_last() == t.take(i as int));
        }
        if char_is_alphanumeric(c) || c == '_' || c == '-' {
            string_push(&mut normalized, c);
            kept = kept + 1;
        }
        i = i + 1;
    }
    proof {
        lemma_capped_prefix_guest_chars(t, i as int);
    }
    if kept == 0 {
        return Err(string_of("guest name must contain letters or numbers"));
    }
    Ok(normalized)
}

/// An accepted guest name is the first guest-name characters of the trimmed
/// candidate, in order: all of them when there are at most
/// [`DISPLAY_NAME_MAX_LEN`], otherwise the first [`DISPLAY_NAME_MAX_LEN`].
pub proof fn accepted_guest_name_is_its_first_characters(candidate: Seq<char>)
    ensures
        sanitized_guest_name(candidate) is Ok ==> ({
            let g = guest_chars(trimmed(candidate));
            let k = if g.len() <= DISPLAY_NAME_MAX_LEN {
                g.len() as int
            } else {
                DISPLAY_NAME_MAX_LEN as int
            };
            &&& sanitized_guest_name(candidate)->Ok_0 == g.take(k)
            &&& sanitized_guest_name(candidate)->Ok_0.len() == k
            &&& forall|i: int|
                0 <= i < k ==> #[trigger] sanitized_guest_name(candidate)->Ok_0[i] == g[i]
        }),
{
    let g = guest_chars(trimmed(candidate));
    if g.len() <= DISPLAY_NAME_MAX_LEN {
        assert(g.take(g.len() as int) == g);
    }
}

/// [`sanitize_guest_name`] refuses an empty name exactly when the candidate is
/// nothing but whitespace, and accepts it exactly when what is left after
/// trimming holds a Unicode alphanumeric, `_` or `-`.
pub proof fn guest_name_outcome(candidate: Seq<char>)
    ensures
        sanitized_guest_name(candidate) == Err::<Seq<char>, Seq<char>>(
            "guest name cannot be empty"@,
        ) <==> trimmed(candidate).len() == 0,
        sanitized_guest_name(candidate) is Ok <==> exists|i: int|
            0 <= i < trimmed(candidate).len() && #[trigger] is_guest_char(trimmed(candidate)[i]),
{
    let t = trimmed(candidate);
    reveal_strlit("guest name cannot be empty");
    reveal_strlit("guest name must contain letters or numbers");
    assert("guest name cannot be empty"@.len() != "guest name must contain letters or numbers"@.len());
    if guest_chars(t).len() > 0 {
        let c = guest_chars(t)[0];
        t.lemma_filter_pred(|c: char| is_guest_char(c), 0);
        t.lemma_filter_contains_rev(|c: char| is_guest_char(c), c);
        let i = choose|i: int| 0 <= i < t.len() && t[i] == c;
        assert(is_guest_char(t[i]));
    }
    if exists|i: int| 0 <= i < t.len() && #[trigger] is_guest_char(t[i]) {
        let i = choose|i: int| 0 <= i < t.len() && #[trigger] is_guest_char(t[i]);
        t.lemma_filter_contains(|c: char| is_guest_char(c), i);
    }
}

/// The first [`GUEST_SUFFIX_LEN`] characters of `identity` (all of it when
/// shorter).
pub open spec fn guest_suffix(identity: Seq<char>) -> Seq<char> {
    if identity.len() <= GUEST_SUFFIX_LEN {
        identity
    } else {
        identity.take(GUEST_SUFFIX_LEN as int)
    }
}

/// The characters of an identity that a guest name can show.
pub open spec fn identity_fits_name(identity: Seq<char>) -> bool {
    forall|i: int| 0 <= i < guest_suffix(identity).len() ==> #[trigger] is_name_char(
        guest_suffix(identity)[i],
    )
}

/// The name of a guest who has not chosen one: `Guest_` and the start of the
/// text of their identity (which is hexadecimal).
pub fn default_guest_name(identity: &str) -> (r: DisplayName)
    requires
        identity_fits_name(identity@),
    ensures
        r@ == "Guest_"@ + guest_suffix(identity@),
{
    let mut text = string_of("Guest_");
    let n = identity.unicode_len();
    let mut i: usize = 0;
    proof {
        reveal_strlit("Guest_");
    }
    while i < n && i < GUEST_SUFFIX_LEN
        invariant
            n == identity@.len(),
            i <= n,
            i <= GUEST_SUFFIX_LEN,
            text@ == "Guest_"@ + identity@.take(i as int),
        decreases n - i,
    {
        string_push(&mut text, identity.get_char(i));
        i = i + 1;
        assert(text@ == "Guest_"@ + identity@.take(i as int));
    }
    proof {
        assert(identity@.take(i as int) == guest_suffix(identity@));
        let s = text@;
        assert forall|k: int| 0 <= k < s.len() implies #[trigger] is_name_char(s[k]) by {
            if k >= 6 {
                assert(s[k] == guest_suffix(identity@)[k - 6]);
            }
        }
        assert(valid_display_name(s));
        revalidating_a_name_keeps_it(s);
    }
    match DisplayName::new(text.as_str()) {
        Ok(name) => name,
        Err(_) => vstd::pervasive::unreached(),
    }
}

/// Whether a default guest name can be built from `identity`.
pub fn identity_fits_guest_name(identity: &str) -> (r: bool)
    ensures
        r == identity_fits_name(identity@),
{
    let n = identity.unicode_len();
    let mut i: usize = 0;
    while i < n && i < GUEST_SUFFIX_LEN
        invariant
            n == identity@.len(),
            i <= n,
            i <= GUEST_SUFFIX_LEN,
            forall|k: int| 0 <= k < i ==> #[trigger] is_name_char(identity@[k]),
        decreases n - i,
    {
        if !crate::display_name::name_char(identity.get_char(i)) {
            assert(guest_suffix(identity@)[i as int] == identity@[i as int]);
            return false;
        }
        i = i + 1;
    }
    proof {
        assert forall|k: int| 0 <= k < guest_suffix(identity@).len() implies #[trigger] is_name_char(
            guest_suffix(identity@)[k],
        ) by {
            assert(guest_suffix(identity@)[k] == identity@[k]);
        }
    }
    true
}

/// What registering a connection does to the `player` table.
#[derive(Clone, Copy, Debug, PartialEq, Eq, Structural)]
pub enum RegistrationPlan {
    /// The caller has no connection: nothing to register.
    Skip,
    /// The connection already has the row with this id: give it the new name,
    /// keeping its id, identity, connection and position.
    Refresh { id: u64 },
    /// The connection has no row yet: add one at the origin.
    Insert,
}

/// Ensures there is exactly one player row for the current connection: a
/// caller without a connection is skipped; an existing row (`existing_row`:
/// the id of the row that the connection already has) is refreshed;
/// otherwise a row is inserted.
pub fn plan_registration(has_connection: bool, existing_row: Option<u64>) -> (r: RegistrationPlan)
    ensures
        !has_connection ==> r == RegistrationPlan::Skip,
        has_connection && existing_row is Some ==> r == (RegistrationPlan::Refresh {
            id: existing_row->Some_0,
        }),
        has_connection && existing_row is None ==> r == RegistrationPlan::Insert,
{
    if !has_connection {
        return RegistrationPlan::Skip;
    }
    match existing_row {
        Some(id) => RegistrationPlan::Refresh { id },
        None => RegistrationPlan::Insert,
    }
}

} // verus!
