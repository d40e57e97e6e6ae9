//! The paths that an edge serves.

use vstd::prelude::*;
use vstd::string::*;
use crate::media::LiveMediaKind;
use crate::text::{
    contains_char, contains_text, decimal, decimal_reads_back, ends_with, has_suffix,
    lemma_decimal_chars, lemma_first_index_is, lemma_first_occurrence, occurs_in, parse_u64,
    parsed_u64, pieces, prefixes_and_suffixes_are_cut_off, same_text, split, split_at_first,
    split_at_text, split_once, split_once_text, strip_prefix, strip_suffix,
    texts_are_split_at_the_first, trim_end_char, view_of, view_of_str, views, without_prefix,
    without_suffix, without_trailing,
};

verus! {

/// Whether a file of the control room is one that is served.
pub open spec fn asset_served(name: Seq<char>) -> bool {
    has_suffix(name, ".js"@) || has_suffix(name, ".wasm"@) || has_suffix(name, ".css"@)
        || has_suffix(name, ".ico"@)
}

/// Whether a file of the control room is one that is served.
pub fn mission_control_asset_extension_allowed(path: &str) -> (r: bool)
    ensures
        r == asset_served(path@),
{
    ends_with(path, ".js") || ends_with(path, ".wasm") || ends_with(path, ".css") || ends_with(
        path,
        ".ico",
    )
}

/// The file of the control room that a path stands for: the page itself, or a file beside it.
pub open spec fn asset_of(path: Seq<char>) -> Option<Seq<char>> {
    if path == "/mesh"@ || path == "/mesh/"@ {
        Some("index.html"@)
    } else {
        match without_prefix(path, "/"@) {
            Some(name) => if name.contains('/') || occurs_in(".."@, name) || !asset_served(name) {
                None
            } else {
                Some(name)
            },
            None => None,
        }
    }
}

/// The file of the control room that a path stands for.
pub fn mission_control_asset_relative_path(path: &str) -> (r: Option<String>)
    ensures
        view_of(r) == asset_of(path@),
{
    if same_text(path, "/mesh") || same_text(path, "/mesh/") {
        return Some("index.html".to_owned());
    }
    match strip_prefix(path, "/") {
        Some(candidate) => {
            if contains_char(candidate.as_str(), '/') || contains_text(candidate.as_str(), "..")
                || !mission_control_asset_extension_allowed(candidate.as_str()) {
                None
            } else {
                Some(candidate)
            }
        },
        None => None,
    }
}

/// The content type of a file of the control room.
pub open spec fn asset_type(name: Seq<char>) -> Option<Seq<char>> {
    if has_suffix(name, ".html"@) {
        Some("text/html; charset=utf-8"@)
    } else if has_suffix(name, ".js"@) {
        Some("text/javascript; charset=utf-8"@)
    } else if has_suffix(name, ".wasm"@) {
        Some("application/wasm"@)
    } else if has_suffix(name, ".css"@) {
        Some("text/css; charset=utf-8"@)
    } else if has_suffix(name, ".ico"@) {
        Some("image/x-icon"@)
    } else {
        None
    }
}

/// The content type of a file of the control room.
pub fn mission_control_asset_content_type(path: &str) -> (r: Option<&'static str>)
    ensures
        view_of_str(r) == asset_type(path@),
{
    if ends_with(path, ".html") {
        Some("text/html; charset=utf-8")
    } else if ends_with(path, ".js") {
        Some("text/javascript; charset=utf-8")
    } else if ends_with(path, ".wasm") {
        Some("application/wasm")
    } else if ends_with(path, ".css") {
        Some("text/css; charset=utf-8")
    } else if ends_with(path, ".ico") {
        Some("image/x-icon")
    } else {
        None
    }
}

/// A file that is served lies beside the page, and has a content type.
pub proof fn assets_stay_beside_the_page(path: Seq<char>)
    ensures
        match asset_of(path) {
            Some(name) => !name.contains('/') && !occurs_in(".."@, name) && asset_type(
                name,
            ) is Some,
            None => true,
        },
{
    reveal_strlit("index.html");
    reveal_strlit(".html");
    reveal_strlit("..");
    let page = "index.html"@;
    assert(page.skip(page.len() - 5) =~= ".html"@);
    assert forall|i: int| 0 <= i <= page.len() - 2 implies #[trigger] page.subrange(i, i + 2)
        != ".."@ by {
        let s = page.subrange(i, i + 2);
        assert(s[0] == page[i] && s[1] == page[i + 1]);
        assert("..".view()[0] == '.' && "..".view()[1] == '.');
    }
}

/// A base address without the slashes at its end.
pub fn normalize_playback_base_url(url: &str) -> (r: String)
    ensures
        r@ == without_trailing(url@, '/'),
{
    trim_end_char(url, '/')
}

/// A base address that was normalized stays as it is, and ends with no slash.
pub proof fn normalized_url_is_final(url: Seq<char>)
    ensures
        without_trailing(without_trailing(url, '/'), '/') == without_trailing(url, '/'),
        without_trailing(url, '/').len() == 0 || without_trailing(url, '/').last() != '/',
    decreases url.len(),
{
    if url.len() > 0 && url.last() == '/' {
        normalized_url_is_final(url.drop_last());
    }
}

/// The stream that a path of the form `/live/<stream><suffix>` names.
pub open spec fn stream_of_path(path: Seq<char>, suffix: Seq<char>) -> Option<u64> {
    match without_prefix(path, "/live/"@) {
        Some(rest) => match without_suffix(rest, suffix) {
            Some(text) => parsed_u64(text),
            None => None,
        },
        None => None,
    }
}

fn parse_stream_path(path: &str, suffix: &str) -> (r: Option<u64>)
    ensures
        r == stream_of_path(path@, suffix@),
{
    match strip_prefix(path, "/live/") {
        Some(rest) => match strip_suffix(rest.as_str(), suffix) {
            Some(text) => parse_u64(text.as_str()),
            None => None,
        },
        None => None,
    }
}

/// The stream whose next part a path asks for.
pub fn parse_llhls_tail_path(path: &str) -> (r: Option<u64>)
    ensures
        r == stream_of_path(path@, "/tail"@),
{
    parse_stream_path(path, "/tail")
}

/// The stream whose playlist a path asks for.
pub fn parse_stream_playlist_path(path: &str) -> (r: Option<u64>)
    ensures
        r == stream_of_path(path@, "/stream.m3u8"@),
{
    parse_stream_path(path, "/stream.m3u8")
}

/// The stream whose initialization a path asks for.
pub fn parse_stream_init_path(path: &str) -> (r: Option<u64>)
    ensures
        r == stream_of_path(path@, "/init.mp4"@),
{
    parse_stream_path(path, "/init.mp4")
}

/// A name without the extension of its media, and the media.
pub open spec fn media_name(value: Seq<char>) -> Option<(Seq<char>, LiveMediaKind)> {
    if has_suffix(value, ".mp4"@) {
        Some((value.take(value.len() - ".mp4"@.len()), LiveMediaKind::Fmp4))
    } else if has_suffix(value, ".ts"@) {
        Some((value.take(value.len() - ".ts"@.len()), LiveMediaKind::Ts))
    } else {
        None
    }
}

/// A name without the extension of its media, and the media.
pub fn strip_live_media_suffix(value: &str) -> (r: Option<(String, LiveMediaKind)>)
    ensures
        match r {
            Some((name, kind)) => media_name(value@) == Some((name@, kind)),
            None => media_name(value@) is None,
        },
{
    match strip_suffix(value, ".mp4") {
        Some(name) => Some((name, LiveMediaKind::Fmp4)),
        None => match strip_suffix(value, ".ts") {
            Some(name) => Some((name, LiveMediaKind::Ts)),
            None => None,
        },
    }
}

/// The number in front of the extension of some media, and the media.
pub open spec fn numbered_media(value: Seq<char>) -> Option<(u64, LiveMediaKind)> {
    match media_name(value) {
        Some((name, kind)) => match parsed_u64(name) {
            Some(number) => Some((number, kind)),
            None => None,
        },
        None => None,
    }
}

fn parse_numbered_media(value: &str) -> (r: Option<(u64, LiveMediaKind)>)
    ensures
        r == numbered_media(value@),
{
    match strip_live_media_suffix(value) {
        Some((name, kind)) => match parse_u64(name.as_str()) {
            Some(number) => Some((number, kind)),
            None => None,
        },
        None => None,
    }
}

/// The stream, the number and the media that a path of the form
/// `/live/<stream><word><number>.<extension>` names.
pub open spec fn stream_media_of_path(path: Seq<char>, word: Seq<char>) -> Option<
    (u64, u64, LiveMediaKind),
> {
    match without_prefix(path, "/live/"@) {
        Some(rest) => match split_at_text(rest, word) {
            Some((stream, value)) => match (parsed_u64(stream), numbered_media(value)) {
                (Some(stream_id), Some((number, kind))) => Some((stream_id, number, kind)),
                _ => None,
            },
            None => None,
        },
        None => None,
    }
}

fn parse_stream_media_path(path: &str, word: &str) -> (r: Option<(u64, u64, LiveMediaKind)>)
    requires
        word@.len() > 0,
    ensures
        r == stream_media_of_path(path@, word@),
{
    match strip_prefix(path, "/live/") {
        Some(rest) => match split_once_text(rest.as_str(), word) {
            Some((stream, value)) => match (
                parse_u64(stream.as_str()),
                parse_numbered_media(value.as_str()),
            ) {
                (Some(stream_id), Some((number, kind))) => Some((stream_id, number, kind)),
                _ => None,
            },
            None => None,
        },
        None => None,
    }
}

/// The part of a stream that a path asks for, and in which media.
pub fn parse_stream_part_path(path: &str) -> (r: Option<(u64, u64, LiveMediaKind)>)
    ensures
        r == stream_media_of_path(path@, "/part"@),
{
    proof {
        reveal_strlit("/part");
    }
    parse_stream_media_path(path, "/part")
}

/// The segment of a stream that a path asks for, and in which media.
pub fn parse_stream_segment_path(path: &str) -> (r: Option<(u64, u64, LiveMediaKind)>)
    ensures
        r == stream_media_of_path(path@, "/seg"@),
{
    proof {
        reveal_strlit("/seg");
    }
    parse_stream_media_path(path, "/seg")
}

/// Whether a path asks for the initialization of the node's own stream.
pub fn parse_init_path(path: &str) -> (r: bool)
    ensures
        r == (path@ == "/live/init.mp4"@),
{
    same_text(path, "/live/init.mp4")
}

/// The number and the media that a path of the form `<prefix><number>.<extension>` names.
pub open spec fn own_media_of_path(path: Seq<char>, prefix: Seq<char>) -> Option<
    (u64, LiveMediaKind),
> {
    match without_prefix(path, prefix) {
        Some(value) => numbered_media(value),
        None => None,
    }
}

/// The part of the node's own stream that a path asks for, and in which media.
pub fn parse_part_path(path: &str) -> (r: Option<(u64, LiveMediaKind)>)
    ensures
        r == own_media_of_path(path@, "/live/part"@),
{
    match strip_prefix(path, "/live/part") {
        Some(value) => parse_numbered_media(value.as_str()),
        None => None,
    }
}

/// The segment of the node's own stream that a path asks for, and in which media.
pub fn parse_segment_path(path: &str) -> (r: Option<(u64, LiveMediaKind)>)
    ensures
        r == own_media_of_path(path@, "/live/seg"@),
{
    match strip_prefix(path, "/live/seg") {
        Some(value) => parse_numbered_media(value.as_str()),
        None => None,
    }
}

/// The stream and the access unit that a path of the form `/media/<stream>/unit/<number>`
/// names.
pub open spec fn unit_of_path(path: Seq<char>) -> Option<(u64, u64)> {
    match without_prefix(path, "/media/"@) {
        Some(rest) => match split_at_text(rest, "/unit/"@) {
            Some((stream, number)) => match (parsed_u64(stream), parsed_u64(number)) {
                (Some(stream_id), Some(sequence)) => Some((stream_id, sequence)),
                _ => None,
            },
            None => None,
        },
        None => None,
    }
}

/// The access unit of a stream that a path asks for.
pub fn parse_media_unit_path(path: &str) -> (r: Option<(u64, u64)>)
    ensures
        r == unit_of_path(path@),
{
    proof {
        reveal_strlit("/unit/");
    }
    match strip_prefix(path, "/media/") {
        Some(rest) => match split_once_text(rest.as_str(), "/unit/") {
            Some((stream, number)) => match (
                parse_u64(stream.as_str()),
                parse_u64(number.as_str()),
            ) {
                (Some(stream_id), Some(sequence)) => Some((stream_id, sequence)),
                _ => None,
            },
            None => None,
        },
        None => None,
    }
}

/// The name and the value of a part of a query; the value is empty where there is none.
pub open spec fn query_pair(part: Seq<char>) -> (Seq<char>, Seq<char>) {
    match split_at_first(part, '=') {
        Some(pair) => pair,
        None => (part, ""@),
    }
}

/// The value beside the first of some parts of a query that has a name.
pub open spec fn first_value(parts: Seq<Seq<char>>, key: Seq<char>) -> Option<Seq<char>>
    decreases parts.len(),
{
    if parts.len() == 0 {
        None
    } else if query_pair(parts[0]).0 == key {
        Some(query_pair(parts[0]).1)
    } else {
        first_value(parts.skip(1), key)
    }
}

/// The value beside a name in a query.
pub open spec fn value_in_query(query: Option<Seq<char>>, key: Seq<char>) -> Option<Seq<char>> {
    match query {
        Some(text) => first_value(pieces(text, '&'), key),
        None => None,
    }
}

/// The value beside a name in a query.
pub fn query_value(query: Option<&str>, key: &str) -> (r: Option<String>)
    ensures
        view_of(r) == value_in_query(view_of_str(query), key@),
{
    match query {
        Some(text) => {
            let parts = split(text, '&');
            let mut i: usize = 0;
            proof {
                assert(views(parts@).skip(0) =~= views(parts@));
            }
            while i < parts.len()
                invariant
                    query == Some(text),
                    i <= parts.len(),
                    views(parts@) == pieces(text@, '&'),
                    first_value(pieces(text@, '&'), key@) == first_value(
                        views(parts@).skip(i as int),
                        key@,
                    ),
                decreases parts.len() - i,
            {
                proof {
                    assert(views(parts@).skip(i as int)[0] == parts@[i as int]@);
                    assert(views(parts@).skip(i as int).skip(1) =~= views(parts@).skip(i + 1));
                }
                match split_once(parts[i].as_str(), '=') {
                    Some((name, value)) => {
                        if same_text(name.as_str(), key) {
                            return Some(value);
                        }
                    },
                    None => {
                        if same_text(parts[i].as_str(), key) {
                            return Some("".to_owned());
                        }
                    },
                }
                i = i + 1;
            }
            None
        },
        None => None,
    }
}

/// The number beside a name in a query.
pub open spec fn number_in_query(query: Option<Seq<char>>, key: Seq<char>) -> Option<u64> {
    match value_in_query(query, key) {
        Some(text) => parsed_u64(text),
        None => None,
    }
}

/// The number beside a name in a query.
pub fn parse_query_u64(query: Option<&str>, key: &str) -> (r: Option<u64>)
    ensures
        r == number_in_query(view_of_str(query), key@),
{
    match query_value(query, key) {
        Some(text) => parse_u64(text.as_str()),
        None => None,
    }
}

/// A path that is made from the number of a stream names that stream.
pub proof fn stream_path_reads_back(stream_id: u64, suffix: Seq<char>)
    ensures
        stream_of_path("/live/"@ + decimal(stream_id as nat) + suffix, suffix) == Some(stream_id),
{
    let text = decimal(stream_id as nat);
    let path = "/live/"@ + text + suffix;
    assert(path.take("/live/"@.len() as int) =~= "/live/"@);
    assert(path.skip("/live/"@.len() as int) =~= text + suffix);
    let rest = text + suffix;
    assert(rest.skip(rest.len() - suffix.len()) =~= suffix);
    assert(rest.take(rest.len() - suffix.len()) =~= text);
    decimal_reads_back(stream_id);
}

proof fn lemma_media_name(name: Seq<char>, kind: LiveMediaKind)
    ensures
        media_name(name + "."@ + kind.extension_text()) == Some((name, kind)),
{
    reveal_strlit("mp4");
    reveal_strlit("ts");
    reveal_strlit(".");
    reveal_strlit(".mp4");
    reveal_strlit(".ts");
    let value = name + "."@ + kind.extension_text();
    match kind {
        LiveMediaKind::Fmp4 => {
            assert(value.skip(value.len() - 4) =~= ".mp4"@);
            assert(value.take(value.len() - 4) =~= name);
        },
        LiveMediaKind::Ts => {
            assert(value.skip(value.len() - 3) =~= ".ts"@);
            assert(value.take(value.len() - 3) =~= name);
            if has_suffix(value, ".mp4"@) {
                assert(value.skip(value.len() - 4)[3] == value[value.len() - 1]);
                assert(value[value.len() - 1] == 's');
            }
        },
    }
}

proof fn lemma_numbered_media(number: u64, kind: LiveMediaKind)
    ensures
        numbered_media(decimal(number as nat) + "."@ + kind.extension_text()) == Some(
            (number, kind),
        ),
{
    lemma_media_name(decimal(number as nat), kind);
    decimal_reads_back(number);
}

proof fn lemma_stream_media(stream_id: u64, word: Seq<char>, number: u64, kind: LiveMediaKind)
    requires
        word.len() > 0,
        word[0] == '/',
    ensures
        stream_media_of_path(
            "/live/"@ + decimal(stream_id as nat) + word + decimal(number as nat) + "."@
                + kind.extension_text(),
            word,
        ) == Some((stream_id, number, kind)),
{
    let text = decimal(stream_id as nat);
    let value = decimal(number as nat) + "."@ + kind.extension_text();
    let path = "/live/"@ + text + word + decimal(number as nat) + "."@ + kind.extension_text();
    assert(path.take("/live/"@.len() as int) =~= "/live/"@);
    assert(path.skip("/live/"@.len() as int) =~= text + word + value);
    lemma_decimal_chars(stream_id as nat, '/');
    lemma_first_occurrence(text, word, value);
    lemma_numbered_media(number, kind);
    decimal_reads_back(stream_id);
}

/// What a playlist lists beside it is what the edge serves there: a part or a segment of the
/// stream that the playlist is of, with its number and its media.
pub proof fn listed_media_are_served(stream_id: u64, number: u64, kind: LiveMediaKind)
    ensures
        stream_media_of_path(
            "/live/"@ + decimal(stream_id as nat) + "/part"@ + decimal(number as nat) + "."@
                + kind.extension_text(),
            "/part"@,
        ) == Some((stream_id, number, kind)),
        stream_media_of_path(
            "/live/"@ + decimal(stream_id as nat) + "/seg"@ + decimal(number as nat) + "."@
                + kind.extension_text(),
            "/seg"@,
        ) == Some((stream_id, number, kind)),
        own_media_of_path(
            "/live/"@ + "part"@ + decimal(number as nat) + "."@ + kind.extension_text(),
            "/live/part"@,
        ) == Some((number, kind)),
        own_media_of_path(
            "/live/"@ + "seg"@ + decimal(number as nat) + "."@ + kind.extension_text(),
            "/live/seg"@,
        ) == Some((number, kind)),
{
    reveal_strlit("/part");
    reveal_strlit("/seg");
    reveal_strlit("part");
    reveal_strlit("seg");
    reveal_strlit("/live/");
    reveal_strlit("/live/part");
    reveal_strlit("/live/seg");
    lemma_stream_media(stream_id, "/part"@, number, kind);
    lemma_stream_media(stream_id, "/seg"@, number, kind);
    lemma_numbered_media(number, kind);
    let value = decimal(number as nat) + "."@ + kind.extension_text();
    let part = "/live/"@ + "part"@ + decimal(number as nat) + "."@ + kind.extension_text();
    assert(part.take("/live/part"@.len() as int) =~= "/live/part"@);
    assert(part.skip("/live/part"@.len() as int) =~= value);
    let segment = "/live/"@ + "seg"@ + decimal(number as nat) + "."@ + kind.extension_text();
    assert(segment.take("/live/seg"@.len() as int) =~= "/live/seg"@);
    assert(segment.skip("/live/seg"@.len() as int) =~= value);
}

/// A path that is made from the numbers of a stream and of an access unit names that unit.
pub proof fn unit_path_reads_back(stream_id: u64, sequence: u64)
    ensures
        unit_of_path(
            "/media/"@ + decimal(stream_id as nat) + "/unit/"@ + decimal(sequence as nat),
        ) == Some((stream_id, sequence)),
{
    reveal_strlit("/unit/");
    let text = decimal(stream_id as nat);
    let number = decimal(sequence as nat);
    let path = "/media/"@ + text + "/unit/"@ + number;
    assert(path.take("/media/"@.len() as int) =~= "/media/"@);
    assert(path.skip("/media/"@.len() as int) =~= text + "/unit/"@ + number);
    lemma_decimal_chars(stream_id as nat, '/');
    lemma_first_occurrence(text, "/unit/"@, number);
    decimal_reads_back(stream_id);
    decimal_reads_back(sequence);
}

/// No path of a file of the control room begins like the path of any media.
pub proof fn assets_are_apart_from_media(path: Seq<char>)
    requires
        asset_of(path) is Some,
    ensures
        without_prefix(path, "/live/"@) is None,
        without_prefix(path, "/media/"@) is None,
{
    reveal_strlit("/mesh");
    reveal_strlit("/mesh/");
    reveal_strlit("/live/");
    reveal_strlit("/media/");
    reveal_strlit("/");
    if without_prefix(path, "/live/"@) is Some {
        assert(path.take(6)[5] == path[5]);
        assert(path.take(6)[1] == path[1]);
        assert(path.skip(1)[4] == path[5]);
        assert(path.skip(1).contains('/'));
    }
    if without_prefix(path, "/media/"@) is Some {
        assert(path.take(7)[6] == path[6]);
        assert(path.take(7)[2] == path[2]);
        assert(path.take(7)[3] == path[3]);
        assert(path.skip(1)[5] == path[6]);
        assert(path.skip(1).contains('/'));
    }
}

/// A path asks for a stream only where it is the number of the stream between the fixed words.
pub proof fn stream_paths_name_their_stream(path: Seq<char>, suffix: Seq<char>, stream_id: u64)
    ensures
        stream_of_path(path, suffix) == Some(stream_id) <==> exists|text: Seq<char>|
            #[trigger] parsed_u64(text) == Some(stream_id) && path == "/live/"@ + (text + suffix),
{
    if stream_of_path(path, suffix) == Some(stream_id) {
        let rest = without_prefix(path, "/live/"@)->0;
        let text = without_suffix(rest, suffix)->0;
        prefixes_and_suffixes_are_cut_off(path, "/live/"@, rest);
        prefixes_and_suffixes_are_cut_off(rest, suffix, text);
        assert(parsed_u64(text) == Some(stream_id));
    }
    if exists|text: Seq<char>|
        #[trigger] parsed_u64(text) == Some(stream_id) && path == "/live/"@ + (text + suffix) {
        let text = choose|text: Seq<char>|
            #[trigger] parsed_u64(text) == Some(stream_id) && path == "/live/"@ + (text + suffix);
        prefixes_and_suffixes_are_cut_off(path, "/live/"@, text + suffix);
        prefixes_and_suffixes_are_cut_off(text + suffix, suffix, text);
    }
}

/// The name of media is what stands before the ending of its kind.
pub proof fn media_are_named_before_their_ending(
    value: Seq<char>,
    name: Seq<char>,
    kind: LiveMediaKind,
)
    ensures
        media_name(value) == Some((name, kind)) <==> (kind is Fmp4 && value == name + ".mp4"@) || (
        kind is Ts && value == name + ".ts"@),
        media_name(value) is None <==> !has_suffix(value, ".mp4"@) && !has_suffix(value, ".ts"@),
{
    reveal_strlit(".mp4");
    reveal_strlit(".ts");
    prefixes_and_suffixes_are_cut_off(value, ".mp4"@, name);
    prefixes_and_suffixes_are_cut_off(value, ".ts"@, name);
    if has_suffix(value, ".mp4"@) && has_suffix(value, ".ts"@) {
        assert(value.skip(value.len() - 4)[3] == value.last());
        assert(value.skip(value.len() - 3)[2] == value.last());
    }
}

/// The value of a key in a query is that of the first pair with it: what stands behind its equals
/// sign, and nothing where it has none.
pub proof fn the_first_pair_of_a_key_counts(parts: Seq<Seq<char>>, key: Seq<char>)
    ensures
        match first_value(parts, key) {
            Some(value) => exists|i: int|
                0 <= i < parts.len() && is_query_pair(#[trigger] parts[i], key, value) && forall|
                    j: int,
                |
                    0 <= j < i ==> query_pair(#[trigger] parts[j]).0 != key,
            None => forall|j: int|
                0 <= j < parts.len() ==> query_pair(#[trigger] parts[j]).0 != key,
        },
    decreases parts.len(),
{
    if parts.len() > 0 {
        if query_pair(parts[0]).0 == key {
            let value = query_pair(parts[0]).1;
            texts_are_split_at_the_first(parts[0], '=', key, value);
            reveal_strlit("");
            assert(is_query_pair(parts[0], key, value));
        } else {
            let rest = parts.skip(1);
            the_first_pair_of_a_key_counts(rest, key);
            assert forall|j: int| 0 < j < parts.len() implies rest[j - 1]
                == #[trigger] parts[j] by {}
            match first_value(rest, key) {
                Some(value) => {
                    let i = choose|i: int|
                        0 <= i < rest.len() && is_query_pair(#[trigger] rest[i], key, value)
                            && forall|j: int|
                            0 <= j < i ==> query_pair(#[trigger] rest[j]).0 != key;
                    assert(parts[i + 1] == rest[i]);
                    assert forall|j: int| 0 <= j < i + 1 implies query_pair(
                        #[trigger] parts[j],
                    ).0 != key by {
                        if j > 0 {
                            assert(rest[j - 1] == parts[j]);
                        }
                    }
                },
                None => {
                    assert forall|j: int| 0 <= j < parts.len() implies query_pair(
                        #[trigger] parts[j],
                    ).0 != key by {
                        if j > 0 {
                            assert(rest[j - 1] == parts[j]);
                        }
                    }
                },
            }
        }
    }
}

/// Whether a piece of a query gives a value to a key.
pub open spec fn is_query_pair(part: Seq<char>, key: Seq<char>, value: Seq<char>) -> bool {
    (part == key + seq!['='] + value && !key.contains('=')) || (part == key && value.len() == 0
        && !part.contains('='))
}

/// A file is served as what its ending says, and not at all with another.
pub proof fn files_are_served_by_their_ending(name: Seq<char>)
    ensures
        asset_type(name + ".html"@) == Some("text/html; charset=utf-8"@),
        asset_type(name + ".js"@) == Some("text/javascript; charset=utf-8"@),
        asset_type(name + ".wasm"@) == Some("application/wasm"@),
        asset_type(name + ".css"@) == Some("text/css; charset=utf-8"@),
        asset_type(name + ".ico"@) == Some("image/x-icon"@),
        asset_served(name) ==> asset_type(name) is Some,
{
    reveal_strlit(".html");
    reveal_strlit(".js");
    reveal_strlit(".wasm");
    reveal_strlit(".css");
    reveal_strlit(".ico");
    lemma_ending(name, ".html"@);
    lemma_ending(name, ".js"@);
    lemma_ending(name, ".wasm"@);
    lemma_ending(name, ".css"@);
    lemma_ending(name, ".ico"@);
    lemma_other_ending(name + ".js"@, ".html"@);
    lemma_other_ending(name + ".wasm"@, ".html"@);
    lemma_other_ending(name + ".wasm"@, ".js"@);
    lemma_other_ending(name + ".css"@, ".html"@);
    lemma_last_but_one(name + ".css"@, ".js"@);
    lemma_other_ending(name + ".css"@, ".wasm"@);
    lemma_other_ending(name + ".ico"@, ".html"@);
    lemma_other_ending(name + ".ico"@, ".js"@);
    lemma_other_ending(name + ".ico"@, ".wasm"@);
    lemma_other_ending(name + ".ico"@, ".css"@);
}

proof fn lemma_ending(name: Seq<char>, ending: Seq<char>)
    ensures
        has_suffix(name + ending, ending),
{
    prefixes_and_suffixes_are_cut_off(name + ending, ending, name);
}

proof fn lemma_other_ending(value: Seq<char>, ending: Seq<char>)
    requires
        value.len() > 0,
        ending.len() > 0,
        value.last() != ending.last(),
    ensures
        !has_suffix(value, ending),
{
    if has_suffix(value, ending) {
        assert(value.skip(value.len() - ending.len()).last() == value.last());
    }
}

proof fn lemma_last_but_one(value: Seq<char>, ending: Seq<char>)
    requires
        value.len() > 1,
        ending.len() > 1,
        value[value.len() - 2] != ending[ending.len() - 2],
    ensures
        !has_suffix(value, ending),
{
    if has_suffix(value, ending) {
        let cut = value.skip(value.len() - ending.len());
        assert(cut[ending.len() - 2] == value[value.len() - 2]);
    }
}

/// A file beside the page is served under its name where its ending is that of a script, a module, a
/// style or an icon, and where its name leads nowhere else; the page itself under its two paths.
pub proof fn files_are_served_under_their_names(name: Seq<char>)
    ensures
        asset_served(name + ".js"@),
        asset_served(name + ".wasm"@),
        asset_served(name + ".css"@),
        asset_served(name + ".ico"@),
        asset_served(name) ==> has_suffix(name, ".js"@) || has_suffix(name, ".wasm"@)
            || has_suffix(name, ".css"@) || has_suffix(name, ".ico"@),
        asset_of("/mesh"@) == Some("index.html"@),
        asset_of("/mesh/"@) == Some("index.html"@),
        name.len() > 5 && !name.contains('/') && !occurs_in(".."@, name) && asset_served(name)
            ==> asset_of("/"@ + name) == Some(name),
        name.contains('/') && "/"@ + name != "/mesh/"@ ==> asset_of("/"@ + name) is None,
{
    reveal_strlit("/");
    reveal_strlit("/mesh");
    reveal_strlit("/mesh/");
    lemma_ending(name, ".js"@);
    lemma_ending(name, ".wasm"@);
    lemma_ending(name, ".css"@);
    lemma_ending(name, ".ico"@);
    prefixes_and_suffixes_are_cut_off("/"@ + name, "/"@, name);
    if name.contains('/') && "/"@ + name == "/mesh"@ {
        let i = choose|i: int| 0 <= i < name.len() && name[i] == '/';
        assert(("/"@ + name)[i + 1] == '/');
        assert("/mesh"@[1] == 'm' && "/mesh"@[2] == 'e' && "/mesh"@[3] == 's' && "/mesh"@[4]
            == 'h');
    }
}

/// The value of a key is read from a query wherever its pair stands, between the signs that part the
/// pairs; without a query there is none.
pub proof fn values_are_read_from_queries(
    key: Seq<char>,
    value: Seq<char>,
    rest: Seq<char>,
    other: Seq<char>,
)
    requires
        !key.contains('=') && !key.contains('&') && !value.contains('&'),
        !other.contains('&') && !other.contains('='),
        other != key,
    ensures
        value_in_query(None, key) is None,
        value_in_query(Some(key + seq!['='] + value), key) == Some(value),
        value_in_query(Some((key + seq!['='] + value) + seq!['&'] + rest), key) == Some(value),
        value_in_query(Some(other + seq!['&'] + (key + seq!['='] + value)), key) == Some(value),
{
    let pair = key + seq!['='] + value;
    assert forall|i: int| 0 <= i < pair.len() implies pair[i] != '&' by {
        if i < key.len() {
            assert(key.contains(key[i]));
        } else if i > key.len() {
            assert(value.contains(value[i - key.len() - 1]));
        }
    }
    assert(!pair.contains('&'));
    texts_are_split_at_the_first(pair, '=', key, value);
    texts_are_split_at_the_first(other, '=', other, other);
    lemma_pieces_of_pair(pair, rest);
    lemma_pieces_of_pair(other, pair);
    lemma_pieces_of_pair(pair, pair);
    let one = pieces(pair, '&');
    assert(one[0] == pair);
    let two = pieces(pair + seq!['&'] + rest, '&');
    assert(two[0] == pair);
    let three = pieces(other + seq!['&'] + pair, '&');
    assert(three[0] == other);
    assert(three.skip(1) =~= one);
}

proof fn lemma_pieces_of_pair(front: Seq<char>, back: Seq<char>)
    requires
        !front.contains('&'),
    ensures
        pieces(front, '&') == seq![front],
        pieces(front + seq!['&'] + back, '&') == seq![front] + pieces(back, '&'),
{
    let s = front + seq!['&'] + back;
    let n = front.len() as int;
    assert forall|j: int| 0 <= j < n implies s[j] != '&' && front[j] != '&' by {
        assert(s[j] == front[j]);
        assert(front.contains(front[j]));
    }
    assert(s[n] == '&');
    lemma_first_index_is(s, '&', n);
    lemma_first_index_is(front, '&', n);
    assert(s.take(n) =~= front);
    assert(s.skip(n + 1) =~= back);
}

} // verus!
