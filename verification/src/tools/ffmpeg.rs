//! ffmpeg: where it is and which version it reports.

use vstd::prelude::*;

use crate::text::{
    chars_eq, chars_of, lines_of, split_lines, split_words, string_of, trim, trim_chars, views_of,
    words_of,
};

verus! {

/// A located ffmpeg executable.
pub struct FFmpeg {
    pub path: String,
    pub version: String,
}

/// Index of the first word equal to `w`, or the number of words if none is.
pub open spec fn word_index(words: Seq<Seq<char>>, w: Seq<char>) -> int
    decreases words.len(),
{
    if words.len() == 0 {
        0
    } else if words[0] == w {
        0
    } else {
        1 + word_index(words.drop_first(), w)
    }
}

proof fn lemma_word_index(words: Seq<Seq<char>>, w: Seq<char>, i: int)
    requires
        0 <= i <= words.len(),
        i < words.len() ==> words[i] == w,
        forall|j: int| 0 <= j < i ==> words[j] != w,
    ensures
        word_index(words, w) == i,
    decreases words.len(),
{
    if words.len() > 0 && i > 0 {
        lemma_word_index(words.drop_first(), w, i - 1);
    }
}

/// The version in `ffmpeg -version` output: the word after the first
/// `version` on the first line (`ffmpeg version 6.1.1 Copyright ...`).
pub open spec fn ffmpeg_version_spec(stdout: Seq<char>) -> Option<Seq<char>> {
    let ls = lines_of(stdout);
    if ls.len() == 0 {
        None
    } else {
        let words = words_of(trim(ls[0]));
        let i = word_index(words, "version"@);
        if i + 1 < words.len() {
            Some(words[i + 1])
        } else {
            None
        }
    }
}

/// Reads the version out of the output of a successful `ffmpeg -version`.
pub fn parse_version_output(stdout: &str) -> (r: Option<String>)
    ensures
        match ffmpeg_version_spec(stdout@) {
            Some(v) => r matches Some(x) && x@ == v,
            None => r is None,
        },
{
    let v = chars_of(stdout);
    let lines = split_lines(v.as_slice());
    if lines.len() == 0 {
        return None;
    }
    assert(views_of(lines@)[0] == lines@[0]@);
    let first = trim_chars(lines[0].as_slice());
    let words = split_words(first.as_slice());
    let ghost ws = views_of(words@);
    let key = chars_of("version");
    let mut i: usize = 0;
    while i < words.len()
        invariant
            i <= words@.len(),
            ws == views_of(words@),
            lines_of(stdout@).len() > 0,
            ws == words_of(trim(lines_of(stdout@)[0])),
            key@ == "version"@,
            forall|j: int| 0 <= j < i ==> ws[j] != "version"@,
        decreases words.len() - i,
    {
        if chars_eq(words[i].as_slice(), key.as_slice()) {
            proof {
                lemma_word_index(ws, "version"@, i as int);
            }
            if i + 1 < words.len() {
                return Some(string_of(words[i + 1].as_slice()));
            } else {
                return None;
            }
        }
        i = i + 1;
    }
    proof {
        lemma_word_index(ws, "version"@, i as int);
    }
    None
}

} // verus!
