//! The persisted form of the credential store: a small key-value document,
//! one `key = "value"` line per present field, with the value written as a
//! quoted string whose special characters are escaped. Writing and reading
//! are both here, with a proof that reading back what was written yields the
//! same credentials.

use vstd::prelude::*;

use crate::config::AppConfig;
use crate::config::ConfigView;
use crate::text::chars_to_string;
use crate::text::str_to_chars;

verus! {

/// Characters that cannot stand raw inside a quoted value: the quote, the
/// backslash, the control characters and delete.
pub open spec fn spec_needs_escape(c: char) -> bool {
    c == '"' || c == '\\' || (c as u32) < 0x20 || (c as u32) == 0x7f
}

/// The hexadecimal digit characters, upper case.
pub open spec fn spec_hex_char(d: nat) -> char {
    if d == 0 {
        '0'
    } else if d == 1 {
        '1'
    } else if d == 2 {
        '2'
    } else if d == 3 {
        '3'
    } else if d == 4 {
        '4'
    } else if d == 5 {
        '5'
    } else if d == 6 {
        '6'
    } else if d == 7 {
        '7'
    } else if d == 8 {
        '8'
    } else if d == 9 {
        '9'
    } else if d == 10 {
        'A'
    } else if d == 11 {
        'B'
    } else if d == 12 {
        'C'
    } else if d == 13 {
        'D'
    } else if d == 14 {
        'E'
    } else {
        'F'
    }
}

/// The value of one hexadecimal digit character, either case.
pub open spec fn spec_hex_val(c: char) -> Option<nat> {
    let n = c as u32;
    if 48 <= n <= 57 {
        Some((n - 48) as nat)
    } else if 65 <= n <= 70 {
        Some((n - 55) as nat)
    } else if 97 <= n <= 102 {
        Some((n - 87) as nat)
    } else {
        None
    }
}

/// How one character is written inside a quoted value: itself when harmless;
/// a letter escape for the quote, the backslash, newline, carriage return
/// and tab; `\u00XX` for every other control character and delete.
pub open spec fn spec_escape_char(c: char) -> Seq<char> {
    if c == '"' {
        seq!['\\', '"']
    } else if c == '\\' {
        seq!['\\', '\\']
    } else if c == '\n' {
        seq!['\\', 'n']
    } else if c == '\r' {
        seq!['\\', 'r']
    } else if c == '\t' {
        seq!['\\', 't']
    } else if (c as u32) < 0x20 || (c as u32) == 0x7f {
        seq!['\\', 'u', '0', '0', spec_hex_char((c as u32 / 16) as nat), spec_hex_char((
        c as u32 % 16) as nat)]
    } else {
        seq![c]
    }
}

/// A whole value, escaped character by character.
pub open spec fn spec_escape(s: Seq<char>) -> Seq<char>
    decreases s.len(),
{
    if s.len() == 0 {
        Seq::<char>::empty()
    } else {
        spec_escape_char(s[0]) + spec_escape(s.skip(1))
    }
}

/// What one escape sequence after a backslash denotes: the escaped character
/// and how many characters the sequence took, or nothing when it is no
/// escape this format knows. `\u00XX` covers exactly two hex digits, so only
/// code points below 256 — every character the writer escapes that way.
pub open spec fn spec_unescape_after_backslash(s: Seq<char>) -> Option<(char, int)> {
    if s.len() >= 1 && s[0] == '"' {
        Some(('"', 1))
    } else if s.len() >= 1 && s[0] == '\\' {
        Some(('\\', 1))
    } else if s.len() >= 1 && s[0] == 'n' {
        Some(('\n', 1))
    } else if s.len() >= 1 && s[0] == 'r' {
        Some(('\r', 1))
    } else if s.len() >= 1 && s[0] == 't' {
        Some(('\t', 1))
    } else if s.len() >= 1 && s[0] == 'b' {
        Some(('\u{8}', 1))
    } else if s.len() >= 1 && s[0] == 'f' {
        Some(('\u{c}', 1))
    } else if s.len() >= 5 && s[0] == 'u' && s[1] == '0' && s[2] == '0'
        && spec_hex_val(s[3]) is Some && spec_hex_val(s[4]) is Some {
        Some(((spec_hex_val(s[3])->0 * 16 + spec_hex_val(s[4])->0) as u8 as char, 5))
    } else {
        None
    }
}

/// Read a quoted value from after its opening quote up to its closing quote:
/// the value and what follows the closing quote, or nothing when the text
/// breaks off, holds a raw character that had to be escaped, or holds an
/// unknown escape.
pub open spec fn spec_parse_string_body(s: Seq<char>) -> Option<(Seq<char>, Seq<char>)>
    decreases s.len(),
{
    if s.len() == 0 {
        None
    } else if s[0] == '"' {
        Some((Seq::<char>::empty(), s.skip(1)))
    } else if s[0] == '\\' {
        match spec_unescape_after_backslash(s.skip(1)) {
            Some((c, used)) => match spec_parse_string_body(s.skip(1 + used)) {
                Some((v, rest)) => Some((seq![c] + v, rest)),
                None => None,
            },
            None => None,
        }
    } else if spec_needs_escape(s[0]) {
        None
    } else {
        match spec_parse_string_body(s.skip(1)) {
            Some((v, rest)) => Some((seq![s[0]] + v, rest)),
            None => None,
        }
    }
}

/// Reading one hex digit back undoes writing it.
proof fn lemma_hex_round_trip(d: nat)
    requires
        d < 16,
    ensures
        spec_hex_val(spec_hex_char(d)) == Some(d),
{
}

/// Reading a quoted value back undoes escaping it: the escaped text,
/// a closing quote, and anything after parse to exactly the original value
/// and that remainder.
#[verifier::rlimit(60)]
pub proof fn lemma_escape_round_trip(v: Seq<char>, rest: Seq<char>)
    ensures
        spec_parse_string_body(spec_escape(v) + seq!['"'] + rest) == Some((v, rest)),
    decreases v.len(),
{
    if v.len() == 0 {
        let s = spec_escape(v) + seq!['"'] + rest;
        assert(s =~= seq!['"'] + rest);
        assert(s[0] == '"');
        assert(s.skip(1) =~= rest);
    } else {
        let c = v[0];
        let e = spec_escape_char(c);
        let tail = spec_escape(v.skip(1)) + seq!['"'] + rest;
        let s = spec_escape(v) + seq!['"'] + rest;
        assert(s =~= e + tail);
        lemma_escape_round_trip(v.skip(1), rest);
        if c == '"' || c == '\\' || c == '\n' || c == '\r' || c == '\t' {
            assert(s[0] == '\\');
            assert(s.skip(1)[0] == e[1]);
            assert(spec_unescape_after_backslash(s.skip(1)) == Some((c, 1int)));
            assert(s.skip(2) =~= tail);
            assert(seq![c] + v.skip(1) =~= v);
        } else if (c as u32) < 0x20 || (c as u32) == 0x7f {
            assert(s[0] == '\\');
            let b = s.skip(1);
            assert(b[0] == 'u' && b[1] == '0' && b[2] == '0');
            assert(b[3] == spec_hex_char((c as u32 / 16) as nat));
            assert(b[4] == spec_hex_char((c as u32 % 16) as nat));
            lemma_hex_round_trip((c as u32 / 16) as nat);
            lemma_hex_round_trip((c as u32 % 16) as nat);
            assert((c as u32 / 16) * 16 + (c as u32 % 16) == c as u32);
            vstd::utf8::char_u32_cast(c, c as u32);
            assert(((c as u32) as u8) as u32 == c as u32);
            assert(((c as u32) as u8) as char == c);
            assert(spec_unescape_after_backslash(b) == Some((c, 5int)));
            assert(s.skip(6) =~= tail);
            assert(seq![c] + v.skip(1) =~= v);
        } else {
            assert(s[0] == c);
            assert(!spec_needs_escape(c));
            assert(s.skip(1) =~= tail);
            assert(seq![c] + v.skip(1) =~= v);
        }
    }
}

/// What stands between a key and its opening quote.
pub open spec fn spec_key_sep() -> Seq<char> {
    seq![' ', '=', ' ', '"']
}

/// One written line: the key, ` = "`, the escaped value, the closing quote
/// and a newline.
pub open spec fn spec_line(key: Seq<char>, val: Seq<char>) -> Seq<char> {
    key + spec_key_sep() + spec_escape(val) + seq!['"', '\n']
}

/// A present field's line; an absent field leaves no line at all.
pub open spec fn spec_opt_line(key: Seq<char>, val: Option<Seq<char>>) -> Seq<char> {
    match val {
        Some(v) => spec_line(key, v),
        None => Seq::<char>::empty(),
    }
}

/// The whole written document: one line per present field, in a fixed order.
pub open spec fn spec_encode_config(c: ConfigView) -> Seq<char> {
    spec_opt_line("access_token"@, c.access_token) + spec_opt_line("refresh_token"@, c.refresh_token)
        + spec_opt_line("email"@, c.email) + spec_opt_line("name"@, c.name) + spec_opt_line(
        "user_id"@,
        c.user_id,
    )
}

/// Whether `s` begins with `p`.
pub open spec fn spec_starts_with(s: Seq<char>, p: Seq<char>) -> bool {
    s.len() >= p.len() && s.take(p.len() as int) == p
}

/// Read what follows a matched key: ` = "`, the quoted value, and the line's
/// end (a newline, or the end of the document). Yields the value and what
/// follows the line.
pub open spec fn spec_parse_value_line(s: Seq<char>) -> Option<(Seq<char>, Seq<char>)> {
    if !spec_starts_with(s, spec_key_sep()) {
        None
    } else {
        match spec_parse_string_body(s.skip(4)) {
            Some((v, rest)) => if rest.len() == 0 {
                Some((v, rest))
            } else if rest[0] == '\n' {
                Some((v, rest.skip(1)))
            } else {
                None
            },
            None => None,
        }
    }
}

/// The store every parse starts from: all fields absent.
pub open spec fn spec_empty_view() -> ConfigView {
    ConfigView {
        access_token: None,
        refresh_token: None,
        email: None,
        name: None,
        user_id: None,
    }
}

/// Read the document line by line onto `acc`: blank lines pass, a line with
/// a known key sets that field, and anything else makes the whole document
/// unreadable.
pub open spec fn spec_parse_config_rec(s: Seq<char>, acc: ConfigView) -> Option<ConfigView>
    decreases s.len(),
    via spec_parse_config_rec_decreases
{
    if s.len() == 0 {
        Some(acc)
    } else if s[0] == '\n' {
        spec_parse_config_rec(s.skip(1), acc)
    } else if spec_starts_with(s, "access_token"@) {
        match spec_parse_value_line(s.skip("access_token"@.len() as int)) {
            Some((v, rest)) => spec_parse_config_rec(
                rest,
                ConfigView { access_token: Some(v), ..acc },
            ),
            None => None,
        }
    } else if spec_starts_with(s, "refresh_token"@) {
        match spec_parse_value_line(s.skip("refresh_token"@.len() as int)) {
            Some((v, rest)) => spec_parse_config_rec(
                rest,
                ConfigView { refresh_token: Some(v), ..acc },
            ),
            None => None,
        }
    } else if spec_starts_with(s, "email"@) {
        match spec_parse_value_line(s.skip("email"@.len() as int)) {
            Some((v, rest)) => spec_parse_config_rec(rest, ConfigView { email: Some(v), ..acc }),
            None => None,
        }
    } else if spec_starts_with(s, "name"@) {
        match spec_parse_value_line(s.skip("name"@.len() as int)) {
            Some((v, rest)) => spec_parse_config_rec(rest, ConfigView { name: Some(v), ..acc }),
            None => None,
        }
    } else if spec_starts_with(s, "user_id"@) {
        match spec_parse_value_line(s.skip("user_id"@.len() as int)) {
            Some((v, rest)) => spec_parse_config_rec(rest, ConfigView { user_id: Some(v), ..acc }),
            None => None,
        }
    } else {
        None
    }
}

/// The whole document read back: every field starts absent.
pub open spec fn spec_parse_config(s: Seq<char>) -> Option<ConfigView> {
    spec_parse_config_rec(s, spec_empty_view())
}

/// A successfully read quoted value always consumes at least its closing
/// quote: the remainder is strictly shorter than the input.
proof fn lemma_parse_body_consumes(s: Seq<char>)
    ensures
        ({
            let r = spec_parse_string_body(s);
            r is Some ==> (r->0).1.len() < s.len()
        }),
    decreases s.len(),
{
    if s.len() == 0 {
    } else if s[0] == '"' {
    } else if s[0] == '\\' {
        match spec_unescape_after_backslash(s.skip(1)) {
            Some((c, used)) => {
                lemma_parse_body_consumes(s.skip(1 + used));
            },
            None => {},
        }
    } else {
        lemma_parse_body_consumes(s.skip(1));
    }
}

/// A successfully read value line consumes at least the separator and the
/// closing quote: the remainder is strictly shorter than the input.
proof fn lemma_parse_value_line_consumes(s: Seq<char>)
    ensures
        ({
            let r = spec_parse_value_line(s);
            r is Some ==> (r->0).1.len() < s.len()
        }),
{
    if spec_starts_with(s, spec_key_sep()) {
        lemma_parse_body_consumes(s.skip(4));
    }
}

#[via_fn]
proof fn spec_parse_config_rec_decreases(s: Seq<char>, acc: ConfigView) {
    if s.len() > 0 && s[0] != '\n' {
        lemma_parse_value_line_consumes(s.skip("access_token"@.len() as int));
        lemma_parse_value_line_consumes(s.skip("refresh_token"@.len() as int));
        lemma_parse_value_line_consumes(s.skip("email"@.len() as int));
        lemma_parse_value_line_consumes(s.skip("name"@.len() as int));
        lemma_parse_value_line_consumes(s.skip("user_id"@.len() as int));
    }
}

/// Reading a key's written line back sets exactly that key's field and moves
/// on to the rest of the document.
proof fn lemma_parse_line(key: Seq<char>, v: Seq<char>, rest: Seq<char>)
    requires
        key.len() > 0,
    ensures
        ({
            let s = spec_line(key, v) + rest;
            &&& s.len() > 0
            &&& s[0] == key[0]
            &&& spec_starts_with(s, key)
            &&& spec_parse_value_line(s.skip(key.len() as int)) == Some((v, rest))
        }),
{
    let s = spec_line(key, v) + rest;
    assert(s.take(key.len() as int) =~= key);
    let after_key = s.skip(key.len() as int);
    assert(after_key =~= spec_key_sep() + (spec_escape(v) + seq!['"', '\n'] + rest));
    assert(after_key.take(4) =~= spec_key_sep());
    assert(after_key.skip(4) =~= spec_escape(v) + seq!['"'] + (seq!['\n'] + rest));
    lemma_escape_round_trip(v, seq!['\n'] + rest);
    let tail = seq!['\n'] + rest;
    assert(tail[0] == '\n');
    assert(tail.skip(1) =~= rest);
}

/// One present field's line, met at the head of the remaining document,
/// sets that field and leaves the rest to read.
proof fn lemma_step_access(v: Seq<char>, rest: Seq<char>, acc: ConfigView)
    ensures
        spec_parse_config_rec(spec_line("access_token"@, v) + rest, acc)
            == spec_parse_config_rec(rest, ConfigView { access_token: Some(v), ..acc }),
{
    reveal_strlit("access_token");
    lemma_parse_line("access_token"@, v, rest);
}

proof fn lemma_step_refresh(v: Seq<char>, rest: Seq<char>, acc: ConfigView)
    ensures
        spec_parse_config_rec(spec_line("refresh_token"@, v) + rest, acc)
            == spec_parse_config_rec(rest, ConfigView { refresh_token: Some(v), ..acc }),
{
    reveal_strlit("access_token");
    reveal_strlit("refresh_token");
    lemma_parse_line("refresh_token"@, v, rest);
    let s = spec_line("refresh_token"@, v) + rest;
    assert(!spec_starts_with(s, "access_token"@));
}

proof fn lemma_step_email(v: Seq<char>, rest: Seq<char>, acc: ConfigView)
    ensures
        spec_parse_config_rec(spec_line("email"@, v) + rest, acc) == spec_parse_config_rec(
            rest,
            ConfigView { email: Some(v), ..acc },
        ),
{
    reveal_strlit("access_token");
    reveal_strlit("refresh_token");
    reveal_strlit("email");
    lemma_parse_line("email"@, v, rest);
    let s = spec_line("email"@, v) + rest;
    assert(!spec_starts_with(s, "access_token"@));
    assert(!spec_starts_with(s, "refresh_token"@));
}

proof fn lemma_step_name(v: Seq<char>, rest: Seq<char>, acc: ConfigView)
    ensures
        spec_parse_config_rec(spec_line("name"@, v) + rest, acc) == spec_parse_config_rec(
            rest,
            ConfigView { name: Some(v), ..acc },
        ),
{
    reveal_strlit("access_token");
    reveal_strlit("refresh_token");
    reveal_strlit("email");
    reveal_strlit("name");
    lemma_parse_line("name"@, v, rest);
    let s = spec_line("name"@, v) + rest;
    assert(!spec_starts_with(s, "access_token"@));
    assert(!spec_starts_with(s, "refresh_token"@));
    assert(!spec_starts_with(s, "email"@));
}

proof fn lemma_step_user_id(v: Seq<char>, rest: Seq<char>, acc: ConfigView)
    ensures
        spec_parse_config_rec(spec_line("user_id"@, v) + rest, acc) == spec_parse_config_rec(
            rest,
            ConfigView { user_id: Some(v), ..acc },
        ),
{
    reveal_strlit("access_token");
    reveal_strlit("refresh_token");
    reveal_strlit("email");
    reveal_strlit("name");
    reveal_strlit("user_id");
    lemma_parse_line("user_id"@, v, rest);
    let s = spec_line("user_id"@, v) + rest;
    assert(!spec_starts_with(s, "access_token"@));
    assert(!spec_starts_with(s, "refresh_token"@));
    assert(!spec_starts_with(s, "email"@));
    assert(!spec_starts_with(s, "name"@));
}

/// The first half of the document, read onto an empty store, sets the two
/// token fields.
proof fn lemma_round_trip_front(c: ConfigView)
    ensures
        ({
            let s5 = spec_opt_line("user_id"@, c.user_id);
            let s4 = spec_opt_line("name"@, c.name) + s5;
            let s3 = spec_opt_line("email"@, c.email) + s4;
            let s2 = spec_opt_line("refresh_token"@, c.refresh_token) + s3;
            let s1 = spec_opt_line("access_token"@, c.access_token) + s2;
            let acc0 = spec_empty_view();
            let acc1 = ConfigView { access_token: c.access_token, ..acc0 };
            let acc2 = ConfigView { refresh_token: c.refresh_token, ..acc1 };
            spec_parse_config_rec(s1, acc0) == spec_parse_config_rec(s3, acc2)
        }),
{
    let s5 = spec_opt_line("user_id"@, c.user_id);
    let s4 = spec_opt_line("name"@, c.name) + s5;
    let s3 = spec_opt_line("email"@, c.email) + s4;
    let s2 = spec_opt_line("refresh_token"@, c.refresh_token) + s3;
    let s1 = spec_opt_line("access_token"@, c.access_token) + s2;
    let acc0 = spec_empty_view();
    let acc1 = ConfigView { access_token: c.access_token, ..acc0 };
    let acc2 = ConfigView { refresh_token: c.refresh_token, ..acc1 };
    match c.access_token {
        Some(v) => {
            assert(s1 =~= spec_line("access_token"@, v) + s2);
            lemma_step_access(v, s2, acc0);
        },
        None => {
            assert(s1 =~= s2);
        },
    }
    assert(spec_parse_config_rec(s1, acc0) == spec_parse_config_rec(s2, acc1));
    match c.refresh_token {
        Some(v) => {
            assert(s2 =~= spec_line("refresh_token"@, v) + s3);
            lemma_step_refresh(v, s3, acc1);
        },
        None => {
            assert(s2 =~= s3);
        },
    }
}

/// The second half of the document sets the three identity fields and ends
/// with the fully rebuilt store.
proof fn lemma_round_trip_back(c: ConfigView)
    ensures
        ({
            let s5 = spec_opt_line("user_id"@, c.user_id);
            let s4 = spec_opt_line("name"@, c.name) + s5;
            let s3 = spec_opt_line("email"@, c.email) + s4;
            let acc0 = spec_empty_view();
            let acc1 = ConfigView { access_token: c.access_token, ..acc0 };
            let acc2 = ConfigView { refresh_token: c.refresh_token, ..acc1 };
            spec_parse_config_rec(s3, acc2) == Some(
                ConfigView {
                    email: c.email,
                    name: c.name,
                    user_id: c.user_id,
                    ..acc2
                },
            )
        }),
{
    let s5 = spec_opt_line("user_id"@, c.user_id);
    let s4 = spec_opt_line("name"@, c.name) + s5;
    let s3 = spec_opt_line("email"@, c.email) + s4;
    let acc0 = spec_empty_view();
    let acc1 = ConfigView { access_token: c.access_token, ..acc0 };
    let acc2 = ConfigView { refresh_token: c.refresh_token, ..acc1 };
    let acc3 = ConfigView { email: c.email, ..acc2 };
    let acc4 = ConfigView { name: c.name, ..acc3 };
    let acc5 = ConfigView { user_id: c.user_id, ..acc4 };
    match c.email {
        Some(v) => {
            assert(s3 =~= spec_line("email"@, v) + s4);
            lemma_step_email(v, s4, acc2);
        },
        None => {
            assert(s3 =~= s4);
        },
    }
    assert(spec_parse_config_rec(s3, acc2) == spec_parse_config_rec(s4, acc3));
    match c.name {
        Some(v) => {
            assert(s4 =~= spec_line("name"@, v) + s5);
            lemma_step_name(v, s5, acc3);
        },
        None => {
            assert(s4 =~= s5);
        },
    }
    assert(spec_parse_config_rec(s4, acc3) == spec_parse_config_rec(s5, acc4));
    match c.user_id {
        Some(v) => {
            assert(s5 =~= spec_line("user_id"@, v) + Seq::<char>::empty());
            lemma_step_user_id(v, Seq::<char>::empty(), acc4);
            assert(spec_parse_config_rec(Seq::<char>::empty(), acc5) == Some(acc5));
        },
        None => {
            assert(s5 =~= Seq::<char>::empty());
        },
    }
    assert(spec_parse_config_rec(s5, acc4) == Some(acc5));
}

/// Reading back what was written restores every field: the round trip
/// through the persisted document is the identity on the credential store.
pub proof fn lemma_config_round_trip(c: ConfigView)
    ensures
        spec_parse_config(spec_encode_config(c)) == Some(c),
{
    let s5 = spec_opt_line("user_id"@, c.user_id);
    let s4 = spec_opt_line("name"@, c.name) + s5;
    let s3 = spec_opt_line("email"@, c.email) + s4;
    let s2 = spec_opt_line("refresh_token"@, c.refresh_token) + s3;
    let s1 = spec_opt_line("access_token"@, c.access_token) + s2;
    assert(spec_encode_config(c) =~= s1);
    lemma_round_trip_front(c);
    lemma_round_trip_back(c);
    let acc0 = spec_empty_view();
    let acc1 = ConfigView { access_token: c.access_token, ..acc0 };
    let acc2 = ConfigView { refresh_token: c.refresh_token, ..acc1 };
    let done = ConfigView { email: c.email, name: c.name, user_id: c.user_id, ..acc2 };
    assert(done == c);
}

/// Escaping distributes over extending the value by one character.
proof fn lemma_escape_push(s: Seq<char>, c: char)
    ensures
        spec_escape(s.push(c)) == spec_escape(s) + spec_escape_char(c),
    decreases s.len(),
{
    assert(s.push(c).len() == s.len() + 1);
    assert(spec_escape(s.push(c)) == spec_escape_char(s.push(c)[0]) + spec_escape(
        s.push(c).skip(1),
    ));
    if s.len() == 0 {
        assert(s.push(c)[0] == c);
        assert(s.push(c).skip(1) =~= Seq::<char>::empty());
        assert(spec_escape(Seq::<char>::empty()) == Seq::<char>::empty());
        assert(spec_escape(s.push(c)) =~= spec_escape(s) + spec_escape_char(c));
    } else {
        assert(s.push(c)[0] == s[0]);
        assert(s.push(c).skip(1) =~= s.skip(1).push(c));
        lemma_escape_push(s.skip(1), c);
        assert(spec_escape(s) == spec_escape_char(s[0]) + spec_escape(s.skip(1)));
        assert(spec_escape(s.push(c)) =~= spec_escape(s) + spec_escape_char(c));
    }
}

/// One hexadecimal digit, upper case.
fn hex_char(d: u32) -> (r: char)
    requires
        d < 16,
    ensures
        r == spec_hex_char(d as nat),
{
    if d == 0 {
        '0'
    } else if d == 1 {
        '1'
    } else if d == 2 {
        '2'
    } else if d == 3 {
        '3'
    } else if d == 4 {
        '4'
    } else if d == 5 {
        '5'
    } else if d == 6 {
        '6'
    } else if d == 7 {
        '7'
    } else if d == 8 {
        '8'
    } else if d == 9 {
        '9'
    } else if d == 10 {
        'A'
    } else if d == 11 {
        'B'
    } else if d == 12 {
        'C'
    } else if d == 13 {
        'D'
    } else if d == 14 {
        'E'
    } else {
        'F'
    }
}

/// The value of one hexadecimal digit character, either case.
fn hex_val(c: char) -> (r: Option<u32>)
    ensures
        match r {
            Some(d) => spec_hex_val(c) == Some(d as nat) && d < 16,
            None => spec_hex_val(c) is None,
        },
{
    let n = c as u32;
    if 48 <= n && n <= 57 {
        Some(n - 48)
    } else if 65 <= n && n <= 70 {
        Some(n - 55)
    } else if 97 <= n && n <= 102 {
        Some(n - 87)
    } else {
        None
    }
}

/// Append one character of a value in its written form.
pub(crate) fn push_escaped_char(out: &mut Vec<char>, c: char)
    ensures
        final(out)@ == old(out)@ + spec_escape_char(c),
{
    if c == '"' {
        out.push('\\');
        out.push('"');
    } else if c == '\\' {
        out.push('\\');
        out.push('\\');
    } else if c == '\n' {
        out.push('\\');
        out.push('n');
    } else if c == '\r' {
        out.push('\\');
        out.push('r');
    } else if c == '\t' {
        out.push('\\');
        out.push('t');
    } else if (c as u32) < 0x20 || (c as u32) == 0x7f {
        out.push('\\');
        out.push('u');
        out.push('0');
        out.push('0');
        out.push(hex_char(c as u32 / 16));
        out.push(hex_char(c as u32 % 16));
    } else {
        out.push(c);
    }
    proof {
        assert(final(out)@ =~= old(out)@ + spec_escape_char(c));
    }
}

/// Append every character of another buffer.
pub(crate) fn push_all(out: &mut Vec<char>, piece: &Vec<char>)
    ensures
        final(out)@ == old(out)@ + piece@,
{
    let mut i: usize = 0;
    while i < piece.len()
        invariant
            i <= piece.len(),
            out@ == old(out)@ + piece@.take(i as int),
        decreases piece.len() - i,
    {
        out.push(piece[i]);
        proof {
            assert(old(out)@ + piece@.take(i + 1 as int) =~= (old(out)@ + piece@.take(
                i as int,
            )).push(piece@[i as int]));
        }
        i = i + 1;
    }
    proof {
        assert(piece@.take(piece@.len() as int) =~= piece@);
        assert(final(out)@ =~= old(out)@ + piece@);
    }
}

/// Append a whole value in its written, escaped form.
pub(crate) fn push_escaped_str(out: &mut Vec<char>, val: &str)
    ensures
        final(out)@ == old(out)@ + spec_escape(val@),
{
    let val_chars = str_to_chars(val);
    let mut i: usize = 0;
    while i < val_chars.len()
        invariant
            i <= val_chars.len(),
            val_chars@ == val@,
            out@ == old(out)@ + spec_escape(val@.take(i as int)),
        decreases val_chars.len() - i,
    {
        push_escaped_char(out, val_chars[i]);
        proof {
            assert(val@.take(i + 1 as int) =~= val@.take(i as int).push(val@[i as int]));
            lemma_escape_push(val@.take(i as int), val@[i as int]);
        }
        i = i + 1;
    }
    proof {
        assert(val@.take(val@.len() as int) =~= val@);
    }
}

/// Append one written line: the key, the separator, the escaped value, the
/// closing quote and the newline.
fn push_line(out: &mut Vec<char>, key: &str, val: &str)
    ensures
        final(out)@ == old(out)@ + spec_line(key@, val@),
{
    let key_chars = str_to_chars(key);
    push_all(out, &key_chars);
    out.push(' ');
    out.push('=');
    out.push(' ');
    out.push('"');
    let ghost mid = out@;
    proof {
        assert(mid =~= old(out)@ + key@ + spec_key_sep());
    }
    push_escaped_str(out, val);
    out.push('"');
    out.push('\n');
    proof {
        assert(final(out)@ =~= old(out)@ + spec_line(key@, val@));
    }
}

/// Write the whole credential store as its persisted document.
pub fn encode_config(c: &AppConfig) -> (r: String)
    ensures
        r@ == spec_encode_config(c@),
{
    let mut out: Vec<char> = Vec::new();
    match &c.access_token {
        Some(v) => push_line(&mut out, "access_token", v.as_str()),
        None => (),
    }
    match &c.refresh_token {
        Some(v) => push_line(&mut out, "refresh_token", v.as_str()),
        None => (),
    }
    match &c.email {
        Some(v) => push_line(&mut out, "email", v.as_str()),
        None => (),
    }
    match &c.name {
        Some(v) => push_line(&mut out, "name", v.as_str()),
        None => (),
    }
    match &c.user_id {
        Some(v) => push_line(&mut out, "user_id", v.as_str()),
        None => (),
    }
    proof {
        assert(out@ =~= spec_encode_config(c@));
    }
    chars_to_string(&out)
}

/// Whether the characters at `pos` begin with `key`.
fn matches_at(v: &Vec<char>, pos: usize, key: &Vec<char>) -> (r: bool)
    requires
        pos <= v.len(),
    ensures
        r == spec_starts_with(v@.skip(pos as int), key@),
{
    if v.len() - pos < key.len() {
        return false;
    }
    let mut j: usize = 0;
    while j < key.len()
        invariant
            pos + key.len() <= v.len(),
            j <= key.len(),
            forall|i: int| 0 <= i < j ==> v@[pos + i] == key@[i],
        decreases key.len() - j,
    {
        if v[pos + j] != key[j] {
            proof {
                assert(!spec_starts_with(v@.skip(pos as int), key@)) by {
                    if spec_starts_with(v@.skip(pos as int), key@) {
                        assert(v@.skip(pos as int).take(key@.len() as int)[j as int] == key@[
                        j as int]);
                        assert(v@.skip(pos as int)[j as int] == v@[pos + j]);
                    }
                }
            }
            return false;
        }
        j = j + 1;
    }
    proof {
        assert(v@.skip(pos as int).take(key@.len() as int) =~= key@);
    }
    true
}

/// Read a quoted value beginning at `start` (just after its opening quote);
/// yield the value and the position just past its closing quote.
fn parse_string_body_at(v: &Vec<char>, start: usize) -> (r: Option<(Vec<char>, usize)>)
    requires
        start <= v.len(),
    ensures
        match r {
            Some((val, p)) => start < p <= v.len() && spec_parse_string_body(
                v@.skip(start as int),
            ) == Some((val@, v@.skip(p as int))),
            None => spec_parse_string_body(v@.skip(start as int)) is None,
        },
{
    let mut val: Vec<char> = Vec::new();
    let mut p: usize = start;
    loop
        invariant
            start <= p <= v.len(),
            spec_parse_string_body(v@.skip(start as int)) == (match spec_parse_string_body(
                v@.skip(p as int),
            ) {
                Some((tv, rest)) => Some((val@ + tv, rest)),
                None => None::<(Seq<char>, Seq<char>)>,
            }),
        decreases v.len() - p,
    {
        if p >= v.len() {
            return None;
        }
        let c = v[p];
        let ghost s = v@.skip(p as int);
        proof {
            assert(s[0] == c);
        }
        if c == '"' {
            proof {
                assert(s.skip(1) =~= v@.skip(p + 1 as int));
                assert(val@ + Seq::<char>::empty() =~= val@);
            }
            return Some((val, p + 1));
        } else if c == '\\' {
            if v.len() - p < 2 {
                proof {
                    assert(s.skip(1).len() == 0);
                }
                return None;
            }
            let c1 = v[p + 1];
            proof {
                assert(s.skip(1) =~= v@.skip(p + 1 as int));
                assert(s.skip(1)[0] == c1);
            }
            let decoded: Option<(char, usize)> = if c1 == '"' {
                Some(('"', 1))
            } else if c1 == '\\' {
                Some(('\\', 1))
            } else if c1 == 'n' {
                Some(('\n', 1))
            } else if c1 == 'r' {
                Some(('\r', 1))
            } else if c1 == 't' {
                Some(('\t', 1))
            } else if c1 == 'b' {
                Some(('\u{8}', 1))
            } else if c1 == 'f' {
                Some(('\u{c}', 1))
            } else if c1 == 'u' {
                if v.len() - p < 6 {
                    None
                } else if v[p + 2] != '0' || v[p + 3] != '0' {
                    None
                } else {
                    match (hex_val(v[p + 4]), hex_val(v[p + 5])) {
                        (Some(h1), Some(h2)) => Some((((h1 * 16 + h2) as u8) as char, 5)),
                        _ => None,
                    }
                }
            } else {
                None
            };
            proof {
                assert(s.skip(1).len() >= 1);
                if s.skip(1).len() >= 5 {
                    assert(s.skip(1)[1] == v@[p + 2]);
                    assert(s.skip(1)[2] == v@[p + 3]);
                    assert(s.skip(1)[3] == v@[p + 4]);
                    assert(s.skip(1)[4] == v@[p + 5]);
                }
            }
            match decoded {
                Some((dc, used)) => {
                    proof {
                        assert(spec_unescape_after_backslash(s.skip(1)) == Some(
                            (dc, used as int),
                        ));
                        assert(s.skip(1 + used as int) =~= v@.skip(p + 1 + used as int));
                        match spec_parse_string_body(v@.skip(p + 1 + used as int)) {
                            Some((tv, rest)) => {
                                assert(val@ + (seq![dc] + tv) =~= val@.push(dc) + tv);
                            },
                            None => {},
                        }
                    }
                    val.push(dc);
                    p = p + 1 + used;
                },
                None => {
                    proof {
                        assert(spec_unescape_after_backslash(s.skip(1)) is None);
                    }
                    return None;
                },
            }
        } else if (c as u32) < 0x20 || (c as u32) == 0x7f {
            return None;
        } else {
            proof {
                assert(!spec_needs_escape(c));
                assert(s.skip(1) =~= v@.skip(p + 1 as int));
                match spec_parse_string_body(v@.skip(p + 1 as int)) {
                    Some((tv, rest)) => {
                        assert(val@ + (seq![c] + tv) =~= val@.push(c) + tv);
                    },
                    None => {},
                }
            }
            val.push(c);
            p = p + 1;
        }
    }
}

/// Read what follows a matched key: the separator, the quoted value and the
/// line's end. Yields the value and the position where the next line starts.
fn parse_value_line_at(v: &Vec<char>, pos: usize) -> (r: Option<(Vec<char>, usize)>)
    requires
        pos <= v.len(),
    ensures
        match r {
            Some((val, p)) => pos < p <= v.len() && spec_parse_value_line(v@.skip(pos as int))
                == Some((val@, v@.skip(p as int))),
            None => spec_parse_value_line(v@.skip(pos as int)) is None,
        },
{
    let ghost s = v@.skip(pos as int);
    if v.len() - pos < 4 || v[pos] != ' ' || v[pos + 1] != '=' || v[pos + 2] != ' ' || v[pos + 3]
        != '"' {
        proof {
            assert(!spec_starts_with(s, spec_key_sep())) by {
                if spec_starts_with(s, spec_key_sep()) {
                    assert(s.take(4)[0] == s[0] && s[0] == v@[pos as int]);
                    assert(s.take(4)[1] == s[1] && s[1] == v@[pos + 1]);
                    assert(s.take(4)[2] == s[2] && s[2] == v@[pos + 2]);
                    assert(s.take(4)[3] == s[3] && s[3] == v@[pos + 3]);
                }
            }
        }
        return None;
    }
    proof {
        assert(s.take(4) =~= spec_key_sep());
        assert(s.skip(4) =~= v@.skip(pos + 4 as int));
    }
    match parse_string_body_at(v, pos + 4) {
        Some((val, p)) => {
            if p == v.len() {
                proof {
                    assert(v@.skip(p as int).len() == 0);
                }
                Some((val, p))
            } else {
                let c = v[p];
                proof {
                    assert(v@.skip(p as int)[0] == c);
                }
                if c == '\n' {
                    proof {
                        assert(v@.skip(p as int).skip(1) =~= v@.skip(p + 1 as int));
                    }
                    Some((val, p + 1))
                } else {
                    None
                }
            }
        },
        None => None,
    }
}

/// Read a whole persisted document back into a credential store.
pub fn parse_config(s: &str) -> (r: Option<AppConfig>)
    ensures
        match r {
            Some(cfg) => spec_parse_config(s@) == Some(cfg@),
            None => spec_parse_config(s@) is None,
        },
{
    let v = str_to_chars(s);
    let key_access = str_to_chars("access_token");
    let key_refresh = str_to_chars("refresh_token");
    let key_email = str_to_chars("email");
    let key_name = str_to_chars("name");
    let key_user = str_to_chars("user_id");
    let mut acc = AppConfig::new();
    let mut pos: usize = 0;
    proof {
        assert(v@.skip(0) =~= v@);
        assert(acc@ == spec_empty_view());
    }
    while pos < v.len()
        invariant
            pos <= v.len(),
            v@ == s@,
            key_access@ == "access_token"@,
            key_refresh@ == "refresh_token"@,
            key_email@ == "email"@,
            key_name@ == "name"@,
            key_user@ == "user_id"@,
            spec_parse_config(s@) == spec_parse_config_rec(v@.skip(pos as int), acc@),
        decreases v.len() - pos,
    {
        let c = v[pos];
        let ghost ss = v@.skip(pos as int);
        proof {
            assert(ss[0] == c);
        }
        if c == '\n' {
            proof {
                assert(ss.skip(1) =~= v@.skip(pos + 1 as int));
            }
            pos = pos + 1;
        } else if matches_at(&v, pos, &key_access) {
            proof {
                assert(ss.len() >= key_access@.len());
                assert(ss.skip(key_access@.len() as int) =~= v@.skip(
                    pos + key_access@.len() as int,
                ));
            }
            match parse_value_line_at(&v, pos + key_access.len()) {
                Some((val, p2)) => {
                    acc.access_token = Some(chars_to_string(&val));
                    pos = p2;
                },
                None => {
                    return None;
                },
            }
        } else if matches_at(&v, pos, &key_refresh) {
            proof {
                assert(ss.len() >= key_refresh@.len());
                assert(ss.skip(key_refresh@.len() as int) =~= v@.skip(
                    pos + key_refresh@.len() as int,
                ));
            }
            match parse_value_line_at(&v, pos + key_refresh.len()) {
                Some((val, p2)) => {
                    acc.refresh_token = Some(chars_to_string(&val));
                    pos = p2;
                },
                None => {
                    return None;
                },
            }
        } else if matches_at(&v, pos, &key_email) {
            proof {
                assert(ss.len() >= key_email@.len());
                assert(ss.skip(key_email@.len() as int) =~= v@.skip(pos + key_email@.len() as int));
            }
            match parse_value_line_at(&v, pos + key_email.len()) {
                Some((val, p2)) => {
                    acc.email = Some(chars_to_string(&val));
                    pos = p2;
                },
                None => {
                    return None;
                },
            }
        } else if matches_at(&v, pos, &key_name) {
            proof {
                assert(ss.len() >= key_name@.len());
                assert(ss.skip(key_name@.len() as int) =~= v@.skip(pos + key_name@.len() as int));
            }
            match parse_value_line_at(&v, pos + key_name.len()) {
                Some((val, p2)) => {
                    acc.name = Some(chars_to_string(&val));
                    pos = p2;
                },
                None => {
                    return None;
                },
            }
        } else if matches_at(&v, pos, &key_user) {
            proof {
                assert(ss.len() >= key_user@.len());
                assert(ss.skip(key_user@.len() as int) =~= v@.skip(pos + key_user@.len() as int));
            }
            match parse_value_line_at(&v, pos + key_user.len()) {
                Some((val, p2)) => {
                    acc.user_id = Some(chars_to_string(&val));
                    pos = p2;
                },
                None => {
                    return None;
                },
            }
        } else {
            return None;
        }
    }
    proof {
        assert(v@.skip(v@.len() as int).len() == 0);
    }
    Some(acc)
}

} // verus!
