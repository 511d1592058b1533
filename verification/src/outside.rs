//! The calls into other crates and into parts of std that are believed, not proved.
use std::collections::HashMap;
use vstd::prelude::*;

verus! {

/// The error of a JSON text that does not parse.
#[verifier::external_type_specification]
#[verifier::external_body]
pub struct ExJsonError(serde_json::Error);

/// The pairs as a map; of two pairs with one key the later one counts.
pub open spec fn map_of(pairs: Seq<(String, String)>) -> Map<Seq<char>, Seq<char>>
    decreases pairs.len(),
{
    if pairs.len() == 0 {
        Map::empty()
    } else {
        map_of(pairs.drop_last()).insert(pairs.last().0@, pairs.last().1@)
    }
}

/// No key occurs twice.
pub open spec fn distinct_keys(pairs: Seq<(String, String)>) -> bool {
    forall|i: int, j: int|
        0 <= i < j < pairs.len() ==> (#[trigger] pairs[i]).0@ != (#[trigger] pairs[j]).0@
}

/// The JSON object of texts that a text holds, as `serde_json::from_str` reads it into a map
/// from texts to texts; `None` where that fails.
pub uninterp spec fn json_text_map(text: Seq<char>) -> Option<Map<Seq<char>, Seq<char>>>;

/// `serde_json::from_str`, into a map from texts to texts. Claims that the outcome depends on
/// the text alone, that the call fails exactly where the text has no such map, and that the
/// pairs handed out are those of the map, each key once, in some order.
#[verifier::external_body]
pub(crate) fn parse_text_map(text: &str) -> (r: Result<Vec<(String, String)>, serde_json::Error>)
    ensures
        match r {
            Ok(pairs) => json_text_map(text@) == Some(map_of(pairs@)) && distinct_keys(pairs@),
            Err(_) => json_text_map(text@) is None,
        },
{
    serde_json::from_str::<HashMap<String, String>>(text).map(|map| map.into_iter().collect())
}

/// `serde_json::to_string`, of a map from texts to texts. Claims that writing such a map does
/// not fail, and that the text is not empty and reads back as the map. The order in which the
/// pairs are written is left open.
#[verifier::external_body]
pub(crate) fn write_text_map(pairs: Vec<(String, String)>) -> (r: Result<String, serde_json::Error>)
    ensures
        match r {
            Ok(text) => text@.len() > 0 && json_text_map(text@) == Some(map_of(pairs@)),
            Err(_) => false,
        },
{
    serde_json::to_string(&pairs.into_iter().collect::<HashMap<String, String>>())
}

/// The lower-case form of a text, as `str::to_lowercase` gives it.
pub uninterp spec fn unicode_lowercase(text: Seq<char>) -> Seq<char>;

/// `str::to_lowercase`. Claims that the result depends on the text alone.
#[verifier::external_body]
pub(crate) fn to_lowercase(text: &str) -> (r: String)
    ensures
        r@ == unicode_lowercase(text@),
{
    text.to_lowercase()
}

/// The text of some bytes, as `String::from_utf8_lossy` gives it.
pub uninterp spec fn lossy_text(bytes: Seq<u8>) -> Seq<char>;

/// `String::from_utf8_lossy`. Claims that the result depends on the bytes alone.
#[verifier::external_body]
pub(crate) fn from_utf8_lossy(bytes: &[u8]) -> (r: String)
    ensures
        r@ == lossy_text(bytes@),
{
    String::from_utf8_lossy(bytes).into_owned()
}

/// A character of an element of a D-Bus object path.
pub open spec fn is_path_char(c: char) -> bool {
    'A' <= c <= 'Z' || 'a' <= c <= 'z' || '0' <= c <= '9' || c == '_'
}

/// A D-Bus object path: elements of letters, digits and `_`, none of them empty, each after a
/// `/`; or a single `/`.
pub open spec fn is_object_path(path: Seq<char>) -> bool {
    &&& path.len() > 0 && path[0] == '/'
    &&& path.len() > 1 ==> path.last() != '/'
    &&& forall|i: int| 0 <= i < path.len() ==> (#[trigger] path[i]) == '/' || is_path_char(path[i])
    &&& forall|i: int|
        #![trigger path[i]]
        0 <= i < path.len() - 1 && path[i] == '/' ==> path[i + 1] != '/'
}

/// The part of a text that C reads: what stands before the first NUL character.
pub open spec fn before_nul(text: Seq<char>) -> Seq<char>
    decreases text.len(),
{
    if text.len() == 0 || text[0] == '\0' {
        seq![]
    } else {
        seq![text[0]] + before_nul(text.drop_first())
    }
}

/// The length of text, in characters, up to which libdbus counts its bytes.
pub const MAX_PATH_CHARS: usize = 0x1000_0000;

/// `dbus::Path::new`. Claims that it accepts exactly the object paths and keeps the text. The
/// text is read up to the first NUL character. A text whose length in bytes does not fit a C
/// `int` must not be given.
#[verifier::external_body]
pub(crate) fn object_path(path: String) -> (r: Option<String>)
    requires
        path@.len() <= MAX_PATH_CHARS,
    ensures
        r is Some <==> is_object_path(before_nul(path@)),
        match r {
            Some(p) => p@ == path@,
            None => true,
        },
{
    dbus::Path::new(path).ok().map(|p| p.to_string())
}

} // verus!
