//! The name of the output file, with or without the canvas code in it.

use crate::info::{CanvasModel, PartialPxlsInfo};
use vstd::prelude::*;

verus! {

/// What the command line asks for.
#[derive(Clone, Debug)]
pub struct Args {
    /// Path of the board PNG to save.
    pub path: String,
    /// Whether the canvas code goes into the file name.
    pub use_canvas_code: bool,
}

/// The file extension that a canvas code is put in front of.
pub open spec fn png_suffix() -> Seq<char> {
    seq!['.', 'p', 'n', 'g']
}

/// `pattern` stands in `text` at `at`.
pub open spec fn occurs_at(text: Seq<char>, pattern: Seq<char>, at: int) -> bool {
    0 <= at && at + pattern.len() <= text.len() && text.subrange(at, at + pattern.len())
        == pattern
}

/// `text` with every occurrence of `pattern` replaced by `with`, found from left
/// to right; an occurrence that begins inside an earlier one is not counted.
/// An empty pattern occurs nowhere.
pub open spec fn replace_all(text: Seq<char>, pattern: Seq<char>, with: Seq<char>) -> Seq<char>
    decreases text.len(),
{
    if pattern.len() == 0 || text.len() < pattern.len() {
        text
    } else if occurs_at(text, pattern, 0) {
        with + replace_all(text.skip(pattern.len() as int), pattern, with)
    } else {
        seq![text[0]] + replace_all(text.skip(1), pattern, with)
    }
}

/// What replaces the extension: a hyphen, the canvas code, the extension.
pub open spec fn tagged_suffix(code: Seq<char>) -> Seq<char> {
    seq!['-'] + code + png_suffix()
}

/// The path of the output file: `path` itself, or, where the code is asked for
/// and the canvas has one, `path` with the code before each `.png`.
pub open spec fn output_path(path: Seq<char>, canvas: CanvasModel, use_canvas_code: bool) -> Seq<
    char,
> {
    match canvas.canvas_code {
        Some(code) if use_canvas_code => replace_all(path, png_suffix(), tagged_suffix(code)),
        _ => path,
    }
}

/// Whether `.png` stands in `text` at `at`.
fn suffix_at(text: &Vec<char>, at: usize) -> (found: bool)
    ensures
        found == occurs_at(text@, png_suffix(), at as int),
{
    if text.len() < 4 || at > text.len() - 4 {
        return false;
    }
    let found = text[at] == '.' && text[at + 1] == 'p' && text[at + 2] == 'n' && text[at + 3]
        == 'g';
    proof {
        let part = text@.subrange(at as int, at + 4);
        if found {
            assert(part =~= png_suffix());
        } else {
            assert(part[0] == text@[at as int]);
            assert(part[1] == text@[at + 1]);
            assert(part[2] == text@[at + 2]);
            assert(part[3] == text@[at + 3]);
        }
    }
    found
}

/// The characters of `text`, in order.
fn chars_of(text: &str) -> (chars: Vec<char>)
    ensures
        chars@ == text@,
{
    let mut chars: Vec<char> = Vec::new();
    for c in it: text.chars()
        invariant
            it.seq() == text@,
            chars@ == text@.take(it.index() as int),
    {
        chars.push(c);
        assert(text@.take(it.index() + 1) =~= text@.take(it.index() as int).push(c));
    }
    assert(text@.take(text@.len() as int) =~= text@);
    chars
}

/// One step of `replace_all` at position `at` of `text`, for a pattern that is
/// not empty.
proof fn lemma_replace_step(text: Seq<char>, pattern: Seq<char>, with: Seq<char>, at: int)
    requires
        pattern.len() > 0,
        0 <= at <= text.len(),
    ensures
        at + pattern.len() > text.len() ==> replace_all(text.skip(at), pattern, with) == text.skip(
            at,
        ),
        occurs_at(text, pattern, at) ==> replace_all(text.skip(at), pattern, with) == with
            + replace_all(text.skip(at + pattern.len()), pattern, with),
        at + pattern.len() <= text.len() && !occurs_at(text, pattern, at) ==> replace_all(
            text.skip(at),
            pattern,
            with,
        ) == seq![text[at]] + replace_all(text.skip(at + 1), pattern, with),
{
    let rest = text.skip(at);
    if at + pattern.len() <= text.len() {
        assert(rest.subrange(0, pattern.len() as int) =~= text.subrange(at, at + pattern.len()));
        assert(rest.skip(pattern.len() as int) =~= text.skip(at + pattern.len()));
        assert(rest.skip(1) =~= text.skip(at + 1));
        assert(rest[0] == text[at]);
    }
}

/// `path` with the canvas code before each `.png`.
pub fn tag_path(path: &str, code: &str) -> (tagged: String)
    ensures
        tagged@ == replace_all(path@, png_suffix(), tagged_suffix(code@)),
{
    let chars = chars_of(path);
    let n = chars.len();
    let ghost with = tagged_suffix(code@);
    let ghost whole = replace_all(path@, png_suffix(), with);
    let mut tagged = String::new();
    let mut copied: usize = 0;
    let mut i: usize = 0;
    proof {
        reveal_strlit("-");
        reveal_strlit(".png");
        assert("-"@ =~= seq!['-']);
        assert(".png"@ =~= png_suffix());
        assert(path@.skip(0) =~= path@);
        assert(path@.subrange(0, 0) =~= Seq::<char>::empty());
    }
    while i < n
        invariant
            0 <= copied <= i <= n,
            n == path@.len(),
            chars@ == path@,
            with == tagged_suffix(code@),
            "-"@ == seq!['-'],
            ".png"@ == png_suffix(),
            whole == replace_all(path@, png_suffix(), with),
            whole == tagged@ + path@.subrange(copied as int, i as int) + replace_all(
                path@.skip(i as int),
                png_suffix(),
                with,
            ),
        decreases n - i,
    {
        proof {
            lemma_replace_step(path@, png_suffix(), with, i as int);
        }
        if suffix_at(&chars, i) {
            let ghost before = tagged@;
            tagged.append(path.substring_char(copied, i));
            tagged.append("-");
            tagged.append(code);
            tagged.append(".png");
            proof {
                assert(tagged@ =~= before + path@.subrange(copied as int, i as int) + with);
                assert(path@.subrange(i + 4, i + 4) =~= Seq::<char>::empty());
                assert(whole =~= tagged@ + path@.subrange(i + 4, i + 4) + replace_all(
                    path@.skip(i + 4),
                    png_suffix(),
                    with,
                ));
            }
            i += 4;
            copied = i;
        } else {
            proof {
                if i + 4 <= n {
                    assert(path@.subrange(copied as int, i + 1) =~= path@.subrange(
                        copied as int,
                        i as int,
                    ) + seq![path@[i as int]]);
                } else {
                    lemma_replace_step(path@, png_suffix(), with, i + 1);
                    assert(path@.skip(i as int) =~= seq![path@[i as int]] + path@.skip(i + 1));
                    assert(path@.subrange(copied as int, i + 1) =~= path@.subrange(
                        copied as int,
                        i as int,
                    ) + seq![path@[i as int]]);
                }
                assert(whole =~= tagged@ + path@.subrange(copied as int, i + 1) + replace_all(
                    path@.skip(i + 1),
                    png_suffix(),
                    with,
                ));
            }
            i += 1;
        }
    }
    proof {
        lemma_replace_step(path@, png_suffix(), with, n as int);
        assert(path@.skip(n as int) =~= Seq::<char>::empty());
        assert(whole =~= tagged@ + path@.subrange(copied as int, n as int));
    }
    tagged.append(path.substring_char(copied, n));
    tagged
}

/// The path to write the canvas to: `path` as it is, or with the canvas code in
/// it where `args` asks for that and the canvas has a code.
pub fn canvas_png_path(path: &str, info: &PartialPxlsInfo, args: &Args) -> (r: String)
    ensures
        r@ == output_path(path@, info@, args.use_canvas_code),
{
    match &info.canvas_code {
        Some(code) if args.use_canvas_code => tag_path(path, code.as_str()),
        _ => path.to_owned(),
    }
}

} // verus!
