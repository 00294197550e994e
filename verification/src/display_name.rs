//! Player identity types shared by the game client and the authoritative server:
//! player ids, and validated display names.
use vstd::prelude::*;
use vstd::string::*;
use crate::text::{is_white_space, str_trim, string_push, trim_end, trim_start, trimmed};

verus! {

/// Longest display name, in characters, that survives normalization.
pub const DISPLAY_NAME_MAX_LEN: usize = 24;

/// Stable identifier for a player row in the backend `player` table.
#[derive(Clone, Copy, Debug, PartialEq, Eq, Structural, Hash)]
pub struct PlayerId(pub u64);

impl Default for PlayerId {
    fn default() -> (r: PlayerId)
        ensures
            r.0 == 0,
    {
        PlayerId(0)
    }
}

/// Why a raw string could not become a [`DisplayName`].
#[derive(Clone, Copy, Debug, PartialEq, Eq, Structural)]
pub enum NameError {
    /// Nothing but whitespace was given.
    Empty,
    /// Something was given, but not one character that a name may hold.
    NoValidCharacters,
}

impl NameError {
    /// The sentence shown to a user for this error.
    pub fn message(self) -> (r: &'static str)
        ensures
            r@ == name_error_message(self),
    {
        match self {
            NameError::Empty => "name cannot be empty",
            NameError::NoValidCharacters => "name must contain letters or numbers",
        }
    }
}

/// The user-facing text of each name error.
pub open spec fn name_error_message(e: NameError) -> Seq<char> {
    match e {
        NameError::Empty => "name cannot be empty"@,
        NameError::NoValidCharacters => "name must contain letters or numbers"@,
    }
}

/// A character that a display name may hold: `[A-Za-z0-9_-]`.
pub open spec fn is_name_char(c: char) -> bool {
    ||| ('a' <= c && c <= 'z')
    ||| ('A' <= c && c <= 'Z')
    ||| ('0' <= c && c <= '9')
    ||| c == '_'
    ||| c == '-'
}

/// The name characters of `s`, in order.
pub open spec fn name_chars(s: Seq<char>) -> Seq<char> {
    s.filter(|c: char| is_name_char(c))
}

/// At most the first [`DISPLAY_NAME_MAX_LEN`] characters of `s`.
pub open spec fn capped(s: Seq<char>) -> Seq<char> {
    if s.len() <= DISPLAY_NAME_MAX_LEN {
        s
    } else {
        s.take(DISPLAY_NAME_MAX_LEN as int)
    }
}

/// What [`DisplayName::new`] makes of `raw`: an error when the trimmed input is
/// empty or holds no name character, otherwise its first name characters.
pub open spec fn display_name_result(raw: Seq<char>) -> Result<Seq<char>, NameError> {
    let t = trimmed(raw);
    if t.len() == 0 {
        Err(NameError::Empty)
    } else if name_chars(t).len() == 0 {
        Err(NameError::NoValidCharacters)
    } else {
        Ok(capped(name_chars(t)))
    }
}

/// A well-formed display name: non-empty, at most [`DISPLAY_NAME_MAX_LEN`]
/// characters, each of them in `[A-Za-z0-9_-]`.
pub open spec fn valid_display_name(s: Seq<char>) -> bool {
    &&& 0 < s.len() <= DISPLAY_NAME_MAX_LEN
    &&& forall|i: int| 0 <= i < s.len() ==> #[trigger] is_name_char(s[i])
}

/// Whether `c` is in `[A-Za-z0-9_-]`.
pub fn name_char(c: char) -> (r: bool)
    ensures
        r == is_name_char(c),
{
    ('a' <= c && c <= 'z') || ('A' <= c && c <= 'Z') || ('0' <= c && c <= '9') || c == '_' || c
        == '-'
}

/// A validated display name. Once constructed, guaranteed to be non-empty and
/// contain only `[A-Za-z0-9_-]`, trimmed to [`DISPLAY_NAME_MAX_LEN`].
#[derive(Debug, PartialEq, Eq, Hash)]
pub struct DisplayName(String);

impl Clone for DisplayName {
    fn clone(&self) -> (r: DisplayName)
        ensures
            r@ == self@,
    {
        proof {
            use_type_invariant(self);
        }
        DisplayName(self.0.clone())
    }
}

impl View for DisplayName {
    type V = Seq<char>;

    closed spec fn view(&self) -> Seq<char> {
        self.0@
    }
}

impl DisplayName {
    #[verifier::type_invariant]
    closed spec fn well_formed(self) -> bool {
        valid_display_name(self.0@)
    }

    /// Normalizes `raw`: trims it, keeps only `[A-Za-z0-9_-]`, and stops after
    /// [`DISPLAY_NAME_MAX_LEN`] kept characters.
    pub fn new(raw: &str) -> (r: Result<DisplayName, NameError>)
        ensures
            match r {
                Ok(name) => display_name_result(raw@) == Ok::<Seq<char>, NameError>(name@),
                Err(e) => display_name_result(raw@) == Err::<Seq<char>, NameError>(e),
            },
            r is Ok ==> valid_display_name(r->Ok_0@),
    {
        let trimmed_raw = str_trim(raw);
        if trimmed_raw.is_empty() {
            return Err(NameError::Empty);
        }
        let ghost t = trimmed_raw@;
        let n = trimmed_raw.unicode_len();
        let mut normalized = String::new();
        let mut kept: usize = 0;
        let mut i: usize = 0;
        while i < n && kept < DISPLAY_NAME_MAX_LEN
            invariant
                t == trimmed_raw@,
                n == t.len(),
                i <= n,
                kept == normalized@.len(),
                kept <= DISPLAY_NAME_MAX_LEN,
                normalized@ == name_chars(t.take(i as int)),
            decreases n - i,
        {
            let c = trimmed_raw.get_char(i);
            proof {
                assert(t.take(i + 1) == t.take(i as int).push(c));
                reveal_with_fuel(Seq::filter, 1);
                assert(t.take(i + 1).drop_last() == t.take(i as int));
            }
            if name_char(c) {
                string_push(&mut normalized, c);
                kept = kept + 1;
            }
            i = i + 1;
        }
        proof {
            lemma_capped_prefix_filter(t, i as int);
        }
        if kept == 0 {
            return Err(NameError::NoValidCharacters);
        }
        proof {
            lemma_name_chars_are_name_chars(t);
        }
        Ok(DisplayName(normalized))
    }

    /// The name as a string slice.
    pub fn as_str(&self) -> (r: &str)
        ensures
            r@ == self@,
            valid_display_name(r@),
    {
        proof {
            use_type_invariant(self);
        }
        self.0.as_str()
    }

    /// The name as an owned string.
    pub fn into_inner(self) -> (r: String)
        ensures
            r@ == self@,
            valid_display_name(r@),
    {
        proof {
            use_type_invariant(&self);
        }
        self.0
    }
}

/// After the loop of [`DisplayName::new`] has looked at `t[..i]`: either it saw
/// all of `t`, and kept at most the cap, or it stopped at the cap; either way
/// what it kept is the capped list of name characters of `t`.
proof fn lemma_capped_prefix_filter(t: Seq<char>, i: int)
    requires
        0 <= i <= t.len(),
        i == t.len() ==> name_chars(t.take(i)).len() <= DISPLAY_NAME_MAX_LEN,
        i < t.len() ==> name_chars(t.take(i)).len() == DISPLAY_NAME_MAX_LEN,
    ensures
        capped(name_chars(t)) == name_chars(t.take(i)),
        name_chars(t).len() == 0 <==> name_chars(t.take(i)).len() == 0,
{
    assert(t == t.take(i) + t.skip(i));
    Seq::filter_distributes_over_add(t.take(i), t.skip(i), |c: char| is_name_char(c));
    if i == t.len() {
        assert(t.skip(i).len() == 0);
        assert(t.skip(i).filter(|c: char| is_name_char(c)) == t.skip(i)) by {
            reveal_with_fuel(Seq::filter, 1);
        }
        assert(name_chars(t) == name_chars(t.take(i)));
    } else {
        let a = name_chars(t.take(i));
        let b = name_chars(t.skip(i));
        assert((a + b).take(DISPLAY_NAME_MAX_LEN as int) == a);
    }
}

/// Every character that `name_chars` keeps is a name character.
proof fn lemma_name_chars_are_name_chars(s: Seq<char>)
    ensures
        forall|k: int|
            0 <= k < name_chars(s).len() ==> #[trigger] is_name_char(name_chars(s)[k]),
        name_chars(s).len() <= s.len(),
{
    assert forall|k: int| 0 <= k < name_chars(s).len() implies #[trigger] is_name_char(
        name_chars(s)[k],
    ) by {
        s.lemma_filter_pred(|c: char| is_name_char(c), k);
    }
    s.lemma_filter_len(|c: char| is_name_char(c));
}

/// Every character of `s` is a name character, so `name_chars` keeps all of `s`.
proof fn lemma_name_chars_of_name(s: Seq<char>)
    requires
        forall|i: int| 0 <= i < s.len() ==> #[trigger] is_name_char(s[i]),
    ensures
        name_chars(s) == s,
    decreases s.len(),
{
    reveal_with_fuel(Seq::filter, 1);
    if s.len() > 0 {
        assert forall|i: int| 0 <= i < s.drop_last().len() implies #[trigger] is_name_char(
            s.drop_last()[i],
        ) by {
            assert(s.drop_last()[i] == s[i]);
        }
        lemma_name_chars_of_name(s.drop_last());
        assert(is_name_char(s[s.len() - 1]));
        assert(s.drop_last().push(s.last()) == s);
    }
}

/// Whitespace is never a name character, so trimming does not change which
/// name characters a string holds.
proof fn lemma_trim_keeps_name_chars(s: Seq<char>)
    ensures
        name_chars(trim_start(s)) == name_chars(s),
        name_chars(trim_end(s)) == name_chars(s),
        name_chars(trimmed(s)) == name_chars(s),
    decreases s.len(),
{
    if s.len() > 0 {
        if is_white_space(s[0]) {
            lemma_trim_keeps_name_chars(s.drop_first());
            assert(s == seq![s[0]] + s.drop_first());
            s.drop_first().lemma_filter_prepend(s[0], |c: char| is_name_char(c));
        }
        if is_white_space(s.last()) {
            lemma_trim_keeps_name_chars(s.drop_last());
            assert(s == s.drop_last().push(s.last()));
            reveal_with_fuel(Seq::filter, 1);
        }
        lemma_trim_end_keeps_name_chars(trim_start(s));
    }
}

proof fn lemma_trim_end_keeps_name_chars(s: Seq<char>)
    ensures
        name_chars(trim_end(s)) == name_chars(s),
    decreases s.len(),
{
    if s.len() > 0 && is_white_space(s.last()) {
        lemma_trim_end_keeps_name_chars(s.drop_last());
        assert(s == s.drop_last().push(s.last()));
        reveal_with_fuel(Seq::filter, 1);
    }
}

/// `s` holds a name character exactly when its list of name characters is
/// not empty.
proof fn lemma_name_chars_empty(s: Seq<char>)
    ensures
        name_chars(s).len() > 0 <==> exists|i: int| 0 <= i < s.len() && #[trigger] is_name_char(
            s[i],
        ),
{
    lemma_name_chars_are_name_chars(s);
    if name_chars(s).len() > 0 {
        let c = name_chars(s)[0];
        s.lemma_filter_contains_rev(|c: char| is_name_char(c), c);
        let i = choose|i: int| 0 <= i < s.len() && s[i] == c;
        assert(is_name_char(s[i]));
    }
    if exists|i: int| 0 <= i < s.len() && #[trigger] is_name_char(s[i]) {
        let i = choose|i: int| 0 <= i < s.len() && #[trigger] is_name_char(s[i]);
        s.lemma_filter_contains(|c: char| is_name_char(c), i);
    }
}

/// A string is trimmed to nothing exactly when all its characters are whitespace.
proof fn lemma_trimmed_empty(s: Seq<char>)
    ensures
        trim_start(s).len() == 0 <==> forall|i: int| 0 <= i < s.len() ==> #[trigger] is_white_space(
            s[i],
        ),
        trim_end(trim_start(s)).len() == 0 <==> trim_start(s).len() == 0,
    decreases s.len(),
{
    if s.len() > 0 && is_white_space(s[0]) {
        lemma_trimmed_empty(s.drop_first());
        assert forall|i: int| 0 < i < s.len() implies #[trigger] s[i] == s.drop_first()[i - 1] by {}
        if forall|i: int| 0 <= i < s.drop_first().len() ==> #[trigger] is_white_space(
            s.drop_first()[i],
        ) {
            assert forall|i: int| 0 <= i < s.len() implies #[trigger] is_white_space(s[i]) by {
                if i > 0 {
                    assert(is_white_space(s.drop_first()[i - 1]));
                }
            }
        }
    }
    lemma_trim_end_empty(trim_start(s));
}

proof fn lemma_trim_end_empty(s: Seq<char>)
    ensures
        trim_end(s).len() == 0 <==> (s.len() == 0 || (trim_end(s.drop_last()).len() == 0
            && is_white_space(s.last()))),
        s.len() > 0 && !is_white_space(s[0]) ==> trim_end(s).len() > 0,
    decreases s.len(),
{
    if s.len() > 0 && is_white_space(s.last()) {
        if s.len() > 1 {
            lemma_trim_end_empty(s.drop_last());
            assert(s.drop_last()[0] == s[0]);
        }
    }
}

/// When [`DisplayName::new`] succeeds: exactly when `raw` holds at least one
/// character of `[A-Za-z0-9_-]`. It reports `Empty` exactly when `raw` is
/// nothing but whitespace, and otherwise `NoValidCharacters`. The name it
/// builds is the first [`DISPLAY_NAME_MAX_LEN`] name characters of `raw`:
/// trimming changes only which error is reported.
pub proof fn display_name_outcome(raw: Seq<char>)
    ensures
        display_name_result(raw) is Ok <==> exists|i: int|
            0 <= i < raw.len() && #[trigger] is_name_char(raw[i]),
        display_name_result(raw) == Err::<Seq<char>, NameError>(NameError::Empty) <==> forall|
            i: int,
        |
            0 <= i < raw.len() ==> #[trigger] is_white_space(raw[i]),
        display_name_result(raw) is Ok ==> display_name_result(raw) == Ok::<
            Seq<char>,
            NameError,
        >(capped(name_chars(raw))),
{
    lemma_trim_keeps_name_chars(raw);
    lemma_name_chars_empty(raw);
    lemma_trimmed_empty(raw);
    if forall|i: int| 0 <= i < raw.len() ==> #[trigger] is_white_space(raw[i]) {
        if exists|i: int| 0 <= i < raw.len() && #[trigger] is_name_char(raw[i]) {
            let i = choose|i: int| 0 <= i < raw.len() && #[trigger] is_name_char(raw[i]);
            assert(is_white_space(raw[i]));
        }
    }
}

/// An accepted display name is the first name characters of the raw input,
/// in order: all of them when there are at most [`DISPLAY_NAME_MAX_LEN`],
/// otherwise the first [`DISPLAY_NAME_MAX_LEN`].
pub proof fn accepted_display_name_is_its_first_characters(raw: Seq<char>)
    ensures
        display_name_result(raw) is Ok ==> ({
            let g = name_chars(raw);
            let k = if g.len() <= DISPLAY_NAME_MAX_LEN {
                g.len() as int
            } else {
                DISPLAY_NAME_MAX_LEN as int
            };
            &&& display_name_result(raw)->Ok_0 == g.take(k)
            &&& display_name_result(raw)->Ok_0.len() == k
            &&& forall|i: int| 0 <= i < k ==> #[trigger] display_name_result(raw)->Ok_0[i] == g[i]
        }),
{
    display_name_outcome(raw);
    let g = name_chars(raw);
    if g.len() <= DISPLAY_NAME_MAX_LEN {
        assert(g.take(g.len() as int) == g);
    }
}

/// A valid display name passes through [`DisplayName::new`] unchanged: the
/// normalization is idempotent.
pub proof fn revalidating_a_name_keeps_it(s: Seq<char>)
    requires
        valid_display_name(s),
    ensures
        display_name_result(s) == Ok::<Seq<char>, NameError>(s),
{
    assert(is_name_char(s[0]));
    assert(is_name_char(s[s.len() - 1]));
    assert(trim_start(s) == s);
    assert(trim_end(s) == s);
    lemma_name_chars_of_name(s);
}

} // verus!
