//! Names as the operating system takes and gives them: sequences of UTF-16
//! code units.

use vstd::prelude::*;

verus! {

/// The UTF-16 code units of one character: the character itself below
/// 0x10000, a high and a low surrogate above.
pub open spec fn utf16_of_char(c: char) -> Seq<u16> {
    let v = c as u32 as int;
    if v < 0x10000 {
        seq![v as u16]
    } else {
        seq![(0xD800 + (v - 0x10000) / 0x400) as u16, (0xDC00 + (v - 0x10000) % 0x400) as u16]
    }
}

/// The UTF-16 encoding of a text: the code units of its characters, one
/// character after the other.
pub open spec fn utf16(text: Seq<char>) -> Seq<u16>
    decreases text.len(),
{
    if text.len() == 0 {
        Seq::<u16>::empty()
    } else {
        utf16(text.drop_last()) + utf16_of_char(text.last())
    }
}

/// Whether `units` is the UTF-16 encoding of a text.
pub open spec fn is_utf16(units: Seq<u16>) -> bool {
    exists|text: Seq<char>| utf16(text) == units
}

/// The text that `units` encode. It is the only one if there is one
/// ([`lemma_utf16_is_injective`]).
pub open spec fn text_of(units: Seq<u16>) -> Seq<char> {
    choose|text: Seq<char>| utf16(text) == units
}

/// `text` without every `suffix` at its end.
pub open spec fn trimmed_end(text: Seq<char>, suffix: Seq<char>) -> Seq<char>
    decreases text.len(),
{
    if 0 < suffix.len() <= text.len() && text.subrange(text.len() - suffix.len(), text.len() as int)
        == suffix {
        trimmed_end(text.subrange(0, text.len() - suffix.len()), suffix)
    } else {
        text
    }
}

/// `text` without the NUL characters at its end.
pub open spec fn without_trailing_nuls(text: Seq<char>) -> Seq<char> {
    trimmed_end(text, seq!['\0'])
}

/// A string of UTF-16 code units that can grow at its end.
#[verifier::external_body]
pub struct WideString {
    inner: widestring::U16String,
}

/// The code units that a wide string holds, in order.
pub uninterp spec fn wide_units(wide: WideString) -> Seq<u16>;

/// `widestring::U16String::from_str`: a wide string that holds the UTF-16
/// encoding of `text`.
#[verifier::external_body]
fn wide_from_str(text: &str) -> (wide: WideString)
    ensures
        wide_units(wide) == utf16(text@),
{
    WideString { inner: widestring::U16String::from_str(text) }
}

/// `widestring::U16String::push_os_str`, for a text: the wide string grows
/// by the UTF-16 encoding of `text`.
#[verifier::external_body]
fn wide_push_os_str(wide: &mut WideString, text: &str)
    ensures
        wide_units(*final(wide)) == wide_units(*old(wide)) + utf16(text@),
{
    wide.inner.push_os_str(text)
}

/// `widestring::U16String::into_vec`: the code units of the wide string.
#[verifier::external_body]
fn wide_into_vec(wide: WideString) -> (units: Vec<u16>)
    ensures
        units@ == wide_units(wide),
{
    wide.inner.into_vec()
}

/// `String::from_utf16`: the text that `units` encodes, if they encode
/// one.
#[verifier::external_body]
fn string_from_utf16(units: &Vec<u16>) -> (text: Option<String>)
    ensures
        text matches Some(decoded) ==> utf16(decoded@) == units@,
        text is None ==> !is_utf16(units@),
{
    String::from_utf16(units).ok()
}

/// `str::trim_end_matches`, for a pattern that is a text: `text` without
/// every `suffix` at its end.
#[verifier::external_body]
fn str_trim_end_matches<'a>(text: &'a str, suffix: &str) -> (rest: &'a str)
    requires
        suffix@.len() > 0,
    ensures
        rest@ == trimmed_end(text@, suffix@),
{
    text.trim_end_matches(suffix)
}

/// The encoding of `text` followed by that of `suffix`.
pub fn wide_with_suffix(text: &str, suffix: &str) -> (units: Vec<u16>)
    ensures
        units@ == utf16(text@) + utf16(suffix@),
{
    let mut wide = wide_from_str(text);
    wide_push_os_str(&mut wide, suffix);
    wide_into_vec(wide)
}

/// The name of an object as the operating system takes it: the encoding
/// of `name`, closed by a zero.
pub fn object_name(name: &str) -> (units: Vec<u16>)
    ensures
        units@ == utf16(name@).push(0u16),
{
    let units = wide_with_suffix(name, "\x00");
    proof {
        reveal_strlit("\x00");
        let nul = "\x00"@;
        assert(nul.drop_last() =~= Seq::<char>::empty());
        reveal_with_fuel(utf16, 2);
        assert(utf16(nul) =~= seq![0u16]);
        assert(units@ =~= utf16(name@).push(0u16));
    }
    units
}

/// The suffix of a module's file.
pub open spec fn module_suffix() -> Seq<u16> {
    seq![0x2Eu16, 0x64u16, 0x6Cu16, 0x6Cu16]
}

/// The file name of a module as the operating system takes it: the
/// encoding of `module`, then that of `.dll`, closed by a zero.
pub fn module_file_name(module: &str) -> (units: Vec<u16>)
    ensures
        units@ == (utf16(module@) + module_suffix()).push(0u16),
{
    let units = wide_with_suffix(module, ".dll\x00");
    proof {
        reveal_strlit(".dll\x00");
        let s = ".dll\x00"@;
        let s4 = s.drop_last();
        let s3 = s4.drop_last();
        let s2 = s3.drop_last();
        let s1 = s2.drop_last();
        assert(s1.drop_last() =~= Seq::<char>::empty());
        reveal_with_fuel(utf16, 2);
        assert(utf16(s1) =~= seq![0x2Eu16]);
        assert(utf16(s2) =~= seq![0x2Eu16, 0x64u16]);
        assert(utf16(s3) =~= seq![0x2Eu16, 0x64u16, 0x6Cu16]);
        assert(utf16(s4) =~= module_suffix());
        assert(utf16(s) =~= module_suffix().push(0u16));
        assert(units@ =~= (utf16(module@) + module_suffix()).push(0u16));
    }
    units
}

/// The name that a buffer of the operating system holds: the text that
/// `buffer` encodes, without the NUL characters at its end. There is none
/// if `buffer` encodes no text.
pub fn name_from_wide(buffer: &Vec<u16>) -> (name: Option<String>)
    ensures
        name is Some <==> is_utf16(buffer@),
        name matches Some(n) ==> n@ == without_trailing_nuls(text_of(buffer@)),
{
    match string_from_utf16(buffer) {
        None => None,
        Some(decoded) => {
            proof {
                reveal_strlit("\x00");
                assert("\x00"@ =~= seq!['\0']);
            }
            let rest = str_trim_end_matches(decoded.as_str(), "\x00");
            proof {
                lemma_text_of_utf16(decoded@);
            }
            Some(rest.to_owned())
        },
    }
}

/// The code units of a character are one unit that is no surrogate, or a
/// high surrogate followed by a low one.
proof fn lemma_utf16_of_char_shape(c: char)
    ensures
        utf16_of_char(c).len() == 1 || utf16_of_char(c).len() == 2,
        utf16_of_char(c).len() == 1 ==> !(0xD800 <= utf16_of_char(c)[0] <= 0xDFFF) && c as u32
            == utf16_of_char(c)[0],
        utf16_of_char(c).len() == 2 ==> 0xD800 <= utf16_of_char(c)[0] <= 0xDBFF && 0xDC00
            <= utf16_of_char(c)[1] <= 0xDFFF && c as u32 == 0x10000 + (utf16_of_char(c)[0]
            - 0xD800) * 0x400 + (utf16_of_char(c)[1] - 0xDC00),
{
}

/// A text that is not empty has an encoding that is not empty.
proof fn lemma_utf16_len(text: Seq<char>)
    ensures
        text.len() > 0 ==> utf16(text).len() >= utf16_of_char(text.last()).len() > 0,
        text.len() == 0 ==> utf16(text).len() == 0,
{
    if text.len() > 0 {
        lemma_utf16_of_char_shape(text.last());
    }
}

/// Two texts with the same encoding are the same.
pub proof fn lemma_utf16_is_injective(a: Seq<char>, b: Seq<char>)
    requires
        utf16(a) == utf16(b),
    ensures
        a == b,
    decreases a.len(),
{
    lemma_utf16_len(a);
    lemma_utf16_len(b);
    if a.len() == 0 || b.len() == 0 {
        assert(a =~= b);
    } else {
        let ca = utf16_of_char(a.last());
        let cb = utf16_of_char(b.last());
        let ua = utf16(a.drop_last());
        let ub = utf16(b.drop_last());
        let all = utf16(a);
        lemma_utf16_of_char_shape(a.last());
        lemma_utf16_of_char_shape(b.last());
        assert(all == ua + ca);
        assert(all == ub + cb);
        assert(all[all.len() - 1] == ca[ca.len() - 1]);
        assert(all[all.len() - 1] == cb[cb.len() - 1]);
        assert(ca.len() == cb.len());
        if ca.len() == 2 {
            assert(all[all.len() - 2] == ca[0]);
            assert(all[all.len() - 2] == cb[0]);
        }
        let u = a.last() as u32;
        assert(u == b.last() as u32);
        vstd::utf8::char_u32_cast(a.last(), u);
        vstd::utf8::char_u32_cast(b.last(), u);
        assert(ua =~= all.subrange(0, all.len() - ca.len()));
        assert(ub =~= all.subrange(0, all.len() - cb.len()));
        lemma_utf16_is_injective(a.drop_last(), b.drop_last());
        assert(a =~= a.drop_last().push(a.last()));
        assert(b =~= b.drop_last().push(b.last()));
    }
}

/// Decoding undoes encoding.
pub proof fn lemma_text_of_utf16(text: Seq<char>)
    ensures
        is_utf16(utf16(text)),
        text_of(utf16(text)) == text,
{
    lemma_utf16_is_injective(text_of(utf16(text)), text);
}

} // verus!
