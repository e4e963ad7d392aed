//! Checks on free text before it reaches a line-oriented file or a shell: a line break in
//! `author` becomes a new control field, a `"` in the description ends a shell string.
//! Everything a manifest can supply is checked at resolution time, so templates and backends
//! can trust it.

use vstd::prelude::*;

use crate::chars::{
    alphanumeric, ascii_control, control, digit, is_alphanumeric, is_ascii_control, is_control,
    is_digit, is_lower, is_whitespace, lower, whitespace,
};
use crate::digits::{code_point, hex_padded};
use crate::error::{outcome, Error, ErrorView, Result};
use crate::strings::{chars_of, text_holds, texts_hold_their_pieces};

verus! {

/// What a piece of text may not hold.
#[derive(Clone, Copy)]
pub enum CharClass {
    /// A control character other than newline and tab.
    Unprintable,
    AsciiControl,
    Control,
    Whitespace,
    /// Outside letters, digits, `.`, `_`, `+` and `-`.
    NotPath,
    /// Outside the path characters and `@`.
    NotEntry,
    /// Outside what a package name may hold after its first character.
    NotPackage,
    /// Outside what an account name may hold after its first character.
    NotAccount,
    /// Outside what a version may hold after its first character.
    NotVersion,
}

/// The characters a path component may hold without quoting.
pub open spec fn path_character(c: char) -> bool {
    alphanumeric(c) || c == '.' || c == '_' || c == '+' || c == '-'
}

pub open spec fn in_class(c: char, class: CharClass) -> bool {
    match class {
        CharClass::Unprintable => control(c) && c != '\n' && c != '\t',
        CharClass::AsciiControl => ascii_control(c),
        CharClass::Control => control(c),
        CharClass::Whitespace => whitespace(c),
        CharClass::NotPath => !path_character(c),
        CharClass::NotEntry => !(path_character(c) || c == '@'),
        CharClass::NotPackage => !(lower(c) || digit(c) || c == '+' || c == '-' || c == '.'),
        CharClass::NotAccount => !(lower(c) || digit(c) || c == '_' || c == '-'),
        CharClass::NotVersion => !(alphanumeric(c) || c == '.' || c == '+' || c == '~'),
    }
}

/// The first character of `s` in `class`.
pub open spec fn first_in(s: Seq<char>, class: CharClass) -> Option<char>
    decreases s.len(),
{
    if s.len() == 0 {
        None
    } else if in_class(s[0], class) {
        Some(s[0])
    } else {
        first_in(s.drop_first(), class)
    }
}

/// `first_in` finds a member exactly when there is one, and what it finds is one.
pub proof fn first_in_exact(s: Seq<char>, class: CharClass)
    ensures
        first_in(s, class) is None <==> forall|i: int|
            0 <= i < s.len() ==> !in_class(#[trigger] s[i], class),
        first_in(s, class) matches Some(c) ==> in_class(c, class) && s.contains(c),
    decreases s.len(),
{
    if s.len() > 0 && !in_class(s[0], class) {
        let rest = s.drop_first();
        first_in_exact(rest, class);
        assert forall|i: int| 0 <= i < s.len() && first_in(rest, class) is None implies !in_class(
            #[trigger] s[i],
            class,
        ) by {
            if i > 0 {
                assert(s[i] == rest[i - 1]);
            }
        }
        if first_in(s, class) is Some {
            let c = first_in(s, class)->0;
            let k = rest.index_of(c);
            assert(s[k + 1] == c);
        }
    }
}

fn is_in(c: char, class: CharClass) -> (b: bool)
    ensures
        b == in_class(c, class),
{
    match class {
        CharClass::Unprintable => is_control(c) && c != '\n' && c != '\t',
        CharClass::AsciiControl => is_ascii_control(c),
        CharClass::Control => is_control(c),
        CharClass::Whitespace => is_whitespace(c),
        CharClass::NotPath => !(is_alphanumeric(c) || c == '.' || c == '_' || c == '+' || c
            == '-'),
        CharClass::NotEntry => !(is_alphanumeric(c) || c == '.' || c == '_' || c == '+' || c
            == '-' || c == '@'),
        CharClass::NotPackage => !(is_lower(c) || is_digit(c) || c == '+' || c == '-' || c == '.'),
        CharClass::NotAccount => !(is_lower(c) || is_digit(c) || c == '_' || c == '-'),
        CharClass::NotVersion => !(is_alphanumeric(c) || c == '.' || c == '+' || c == '~'),
    }
}

/// The first character of `s` in `class`.
pub fn find_in(s: &str, class: CharClass) -> (r: Option<char>)
    ensures
        r == first_in(s@, class),
{
    let v = chars_of(s);
    let mut i: usize = 0;
    assert(v@.skip(0) =~= s@);
    while i < v.len()
        invariant
            i <= v@.len(),
            first_in(s@, class) == first_in(v@.skip(i as int), class),
        decreases v@.len() - i,
    {
        if is_in(v[i], class) {
            return Some(v[i]);
        }
        assert(v@.skip(i as int).drop_first() =~= v@.skip(i + 1));
        i = i + 1;
    }
    None
}

/// How a refused character is described.
pub open spec fn refused_as(c: char) -> Seq<char> {
    if c == '\n' || c == '\r' {
        "a line break"@
    } else if whitespace(c) {
        "whitespace"@
    } else {
        "the control character U+"@ + hex_padded(c as nat)
    }
}

/// The error for a field holding `c`.
pub open spec fn rejection(field: Seq<char>, c: char) -> ErrorView {
    ErrorView::Manifest {
        message: "`"@ + field + "` contains "@ + refused_as(c)
            + "; it is written into package metadata, which cannot carry it"@,
    }
}

/// Multi-line text: no control character but newline and tab.
pub open spec fn printable_check(field: Seq<char>, value: Seq<char>) -> core::result::Result<
    (),
    ErrorView,
> {
    match first_in(value, CharClass::Unprintable) {
        Some(c) => Err(rejection(field, c)),
        None => Ok(()),
    }
}

/// One line: no control character at all.
pub open spec fn single_line_check(field: Seq<char>, value: Seq<char>) -> core::result::Result<
    (),
    ErrorView,
> {
    match first_in(value, CharClass::AsciiControl) {
        Some(c) => Err(rejection(field, c)),
        None => printable_check(field, value),
    }
}

/// One word: no control character and no whitespace.
pub open spec fn token_check(field: Seq<char>, value: Seq<char>) -> core::result::Result<
    (),
    ErrorView,
> {
    match single_line_check(field, value) {
        Err(e) => Err(e),
        Ok(_) => match first_in(value, CharClass::Whitespace) {
            Some(c) => Err(rejection(field, c)),
            None => Ok(()),
        },
    }
}

fn reject(field: &str, c: char) -> (e: Error)
    ensures
        e@ == rejection(field@, c),
{
    let what = if c == '\n' || c == '\r' {
        "a line break".to_owned()
    } else if is_whitespace(c) {
        "whitespace".to_owned()
    } else {
        let mut s = "the control character U+".to_owned();
        s.append(code_point(c).as_str());
        s
    };
    let mut m = "`".to_owned();
    m.append(field);
    m.append("` contains ");
    m.append(what.as_str());
    m.append("; it is written into package metadata, which cannot carry it");
    Error::manifest(m)
}

/// Rejects control characters other than newline and tab: for multi-line text.
pub fn printable(field: &str, value: &str) -> (r: Result<()>)
    ensures
        outcome(r) == printable_check(field@, value@),
{
    match find_in(value, CharClass::Unprintable) {
        Some(c) => Err(reject(field, c)),
        None => Ok(()),
    }
}

/// Rejects every control character: for fields that must stay on one line.
pub fn single_line(field: &str, value: &str) -> (r: Result<()>)
    ensures
        outcome(r) == single_line_check(field@, value@),
{
    match find_in(value, CharClass::AsciiControl) {
        Some(c) => Err(reject(field, c)),
        None => printable(field, value),
    }
}

/// [`single_line`] plus no whitespace at all: for a URL.
pub fn token(field: &str, value: &str) -> (r: Result<()>)
    ensures
        outcome(r) == token_check(field@, value@),
{
    match single_line(field, value) {
        Err(e) => Err(e),
        Ok(()) => match find_in(value, CharClass::Whitespace) {
            Some(c) => Err(reject(field, c)),
            None => Ok(()),
        },
    }
}

/// The characters a double-quoted shell string does not take literally.
pub open spec fn shell_special(c: char) -> bool {
    c == '\\' || c == '"' || c == '$' || c == '`'
}

/// `s` with a backslash before each special character.
pub open spec fn quoted(s: Seq<char>) -> Seq<char>
    decreases s.len(),
{
    if s.len() == 0 {
        Seq::empty()
    } else if shell_special(s.last()) {
        quoted(s.drop_last()).push('\\').push(s.last())
    } else {
        quoted(s.drop_last()).push(s.last())
    }
}

/// What a shell reads from the inside of a double-quoted string: `None` where a special
/// character stands bare or a backslash ends the text.
pub open spec fn shell_reads(s: Seq<char>) -> Option<Seq<char>>
    decreases s.len(),
{
    if s.len() == 0 {
        Some(Seq::empty())
    } else if s[0] == '\\' {
        if s.len() >= 2 && shell_special(s[1]) {
            match shell_reads(s.skip(2)) {
                Some(rest) => Some(seq![s[1]] + rest),
                None => None,
            }
        } else {
            None
        }
    } else if shell_special(s[0]) {
        None
    } else {
        match shell_reads(s.skip(1)) {
            Some(rest) => Some(seq![s[0]] + rest),
            None => None,
        }
    }
}

/// `value` as the inside of a double-quoted shell string.
pub fn shell_double_quoted(value: &str) -> (out: String)
    ensures
        out@ == quoted(value@),
{
    let v = chars_of(value);
    let mut out = String::new();
    let mut i: usize = 0;
    while i < v.len()
        invariant
            v@ == value@,
            i <= v@.len(),
            out@ == quoted(v@.take(i as int)),
        decreases v@.len() - i,
    {
        let c = v[i];
        assert(v@.take(i + 1).drop_last() =~= v@.take(i as int));
        if c == '\\' || c == '"' || c == '$' || c == '`' {
            out.push('\\');
        }
        out.push(c);
        i = i + 1;
    }
    assert(v@.take(i as int) =~= value@);
    out
}

proof fn reads_append(a: Seq<char>, b: Seq<char>)
    requires
        shell_reads(a) is Some,
        shell_reads(b) is Some,
    ensures
        shell_reads(a + b) == Some(shell_reads(a)->0 + shell_reads(b)->0),
    decreases a.len(),
{
    if a.len() == 0 {
        assert(a + b =~= b);
        assert(shell_reads(a)->0 + shell_reads(b)->0 =~= shell_reads(b)->0);
    } else if a[0] == '\\' {
        reads_append(a.skip(2), b);
        assert((a + b).skip(2) =~= a.skip(2) + b);
        assert(seq![a[1]] + (shell_reads(a.skip(2))->0 + shell_reads(b)->0) =~= (seq![a[1]]
            + shell_reads(a.skip(2))->0) + shell_reads(b)->0);
    } else {
        reads_append(a.skip(1), b);
        assert((a + b).skip(1) =~= a.skip(1) + b);
        assert(seq![a[0]] + (shell_reads(a.skip(1))->0 + shell_reads(b)->0) =~= (seq![a[0]]
            + shell_reads(a.skip(1))->0) + shell_reads(b)->0);
    }
}

/// The shell reads back exactly the value that was quoted.
pub proof fn quoting_is_read_back(s: Seq<char>)
    ensures
        shell_reads(quoted(s)) == Some(s),
    decreases s.len(),
{
    if s.len() == 0 {
        assert(s =~= Seq::empty());
    } else {
        let c = s.last();
        quoting_is_read_back(s.drop_last());
        let piece = if shell_special(c) {
            seq!['\\', c]
        } else {
            seq![c]
        };
        assert(piece.skip(piece.len() as int) =~= Seq::empty());
        assert(shell_reads(piece.skip(piece.len() as int)) == Some(Seq::<char>::empty()));
        assert(seq![c] + Seq::<char>::empty() =~= seq![c]);
        assert(shell_reads(piece) == Some(seq![c]));
        reads_append(quoted(s.drop_last()), piece);
        assert(quoted(s) =~= quoted(s.drop_last()) + piece);
        assert(s.drop_last() + seq![c] =~= s);
    }
}

/// A field that passes [`single_line`] holds no control character, so it cannot start a new
/// line of metadata.
pub proof fn single_line_holds_no_control(field: Seq<char>, value: Seq<char>)
    ensures
        single_line_check(field, value) is Ok <==> forall|i: int|
            0 <= i < value.len() ==> !control(#[trigger] value[i]),
{
    first_in_exact(value, CharClass::AsciiControl);
    first_in_exact(value, CharClass::Unprintable);
    if single_line_check(field, value) is Ok {
        assert forall|i: int| 0 <= i < value.len() implies !control(#[trigger] value[i]) by {
            assert(!in_class(value[i], CharClass::AsciiControl));
            assert(!in_class(value[i], CharClass::Unprintable));
        }
    } else {
        if first_in(value, CharClass::AsciiControl) is Some {
            let c = first_in(value, CharClass::AsciiControl)->0;
            let k = value.index_of(c);
            assert(value[k] == c);
            assert(control(value[k]));
        } else {
            let c = first_in(value, CharClass::Unprintable)->0;
            let k = value.index_of(c);
            assert(value[k] == c);
            assert(control(value[k]));
        }
    }
}

/// Quoting goes character by character: a backslash, a double quote, a dollar sign and a backtick
/// get a backslash in front, and every other character stays as it is.
pub proof fn quoting_goes_character_by_character(s: Seq<char>, c: char)
    ensures
        quoted(Seq::empty()).len() == 0,
        c == '\\' || c == '"' || c == '$' || c == '`' ==> quoted(s.push(c)) == quoted(s) + seq![
            '\\',
            c,
        ],
        !(c == '\\' || c == '"' || c == '$' || c == '`') ==> quoted(s.push(c)) == quoted(s) + seq![
            c,
        ],
{
    assert(s.push(c).drop_last() =~= s);
    assert(quoted(s).push('\\').push(c) =~= quoted(s) + seq!['\\', c]);
    assert(quoted(s).push(c) =~= quoted(s) + seq![c]);
}

/// Text over several lines may hold any character but a control character, line breaks and tabs
/// excepted; a token holds no control character and no whitespace at all.
pub proof fn texts_hold_what_their_place_allows(field: Seq<char>, value: Seq<char>)
    ensures
        printable_check(field, value) is Ok <==> forall|i: int|
            0 <= i < value.len() ==> (#[trigger] value[i] == '\n' || value[i] == '\t' || !control(
                value[i],
            )),
        token_check(field, value) is Ok <==> forall|i: int|
            0 <= i < value.len() ==> !control(#[trigger] value[i]) && !whitespace(value[i]),
{
    first_in_exact(value, CharClass::Unprintable);
    first_in_exact(value, CharClass::Whitespace);
    single_line_holds_no_control(field, value);
    if printable_check(field, value) is Ok {
        assert forall|i: int| 0 <= i < value.len() implies (#[trigger] value[i] == '\n' || value[i]
            == '\t' || !control(value[i])) by {
            assert(!in_class(value[i], CharClass::Unprintable));
        }
    } else {
        let c = first_in(value, CharClass::Unprintable)->0;
        let k = value.index_of(c);
        assert(value[k] == c);
    }
    if token_check(field, value) is Ok {
        assert forall|i: int| 0 <= i < value.len() implies !control(#[trigger] value[i])
            && !whitespace(value[i]) by {
            assert(!in_class(value[i], CharClass::Whitespace));
        }
    } else if single_line_check(field, value) is Ok {
        let c = first_in(value, CharClass::Whitespace)->0;
        let k = value.index_of(c);
        assert(value[k] == c);
    }
}

/// What each kind of name is written with: paths with letters, digits and `.`, `_`, `+`, `-`;
/// entry points also with `@`; package and account names with small letters only; versions with
/// `~` and without `-`.
pub proof fn names_are_written_with(c: char)
    ensures
        ({
            let small = 'a' <= c <= 'z' || '0' <= c <= '9';
            let plain = small || 'A' <= c <= 'Z';
            &&& in_class(c, CharClass::NotPath) <==> !(plain || c == '.' || c == '_' || c == '+' || c
                == '-')
            &&& in_class(c, CharClass::NotEntry) <==> !(plain || c == '.' || c == '_' || c == '+'
                || c == '-' || c == '@')
            &&& in_class(c, CharClass::NotPackage) <==> !(small || c == '+' || c == '-' || c == '.')
            &&& in_class(c, CharClass::NotAccount) <==> !(small || c == '_' || c == '-')
            &&& in_class(c, CharClass::NotVersion) <==> !(plain || c == '.' || c == '+' || c == '~')
        }),
{
}

/// A refused text is told by its field, and by what is wrong with it: a line break, whitespace,
/// or the character's number.
pub proof fn refusals_name_the_field(field: Seq<char>, c: char)
    ensures
        text_holds(rejection(field, c).text(), field),
        c == '\n' || c == '\r' ==> text_holds(rejection(field, c).text(), "a line break"@),
{
    texts_hold_their_pieces();
    assert(text_holds(rejection(field, c)->Manifest_message, field));
    if c == '\n' || c == '\r' {
        assert(text_holds(refused_as(c), "a line break"@));
        assert(text_holds(rejection(field, c)->Manifest_message, "a line break"@));
    }
}

} // verus!
