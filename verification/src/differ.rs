//! The difference between two snapshots, line by line, and how it is shown.
//!
//! The lines are compared by another crate. What it hands back is held
//! against the two texts before it is used: a script counts only if the
//! lines it keeps or deletes are the lines of the old text and the lines it
//! keeps or inserts are the lines of the new one.

use crate::chars::{chars_of, push_all, same_chars, text_of, texts};
use crate::outside::{
    changes_by_line, default_foreground, green_foreground, line_changes, red_foreground,
};
use vstd::prelude::*;

verus! {

/// What a line of a script does.
#[derive(Clone, Copy, Debug, PartialEq, Eq, Structural)]
pub enum ChangeTag {
    /// The line stands in both texts.
    Equal,
    /// The line stands in the new text only.
    Inserted,
    /// The line stands in the old text only.
    Deleted,
}

/// One element of a script: a tag and the line it speaks of, line feed
/// included.
#[derive(Debug, PartialEq, Eq)]
pub struct DiffLine {
    pub tag: ChangeTag,
    pub text: String,
}

/// An element of a script, as contracts see it.
pub struct DiffLineView {
    pub tag: ChangeTag,
    pub text: Seq<char>,
}

impl View for DiffLine {
    type V = DiffLineView;

    open spec fn view(&self) -> DiffLineView {
        DiffLineView { tag: self.tag, text: self.text@ }
    }
}

/// The views of the elements of a script, in order.
pub open spec fn script_view(script: Seq<DiffLine>) -> Seq<DiffLineView> {
    script.map_values(|l: DiffLine| l@)
}

/// The lines that the elements tagged `Equal` or `keep` speak of, in order.
pub open spec fn side_lines(script: Seq<DiffLineView>, keep: ChangeTag) -> Seq<Seq<char>>
    decreases script.len(),
{
    if script.len() == 0 {
        Seq::empty()
    } else if script.last().tag == ChangeTag::Equal || script.last().tag == keep {
        side_lines(script.drop_last(), keep).push(script.last().text)
    } else {
        side_lines(script.drop_last(), keep)
    }
}

/// The lines, one after the other.
pub open spec fn concat(lines: Seq<Seq<char>>) -> Seq<char>
    decreases lines.len(),
{
    if lines.len() == 0 {
        Seq::empty()
    } else {
        concat(lines.drop_last()) + lines.last()
    }
}

/// The text that a script starts from: its kept and deleted lines, one after
/// the other.
pub open spec fn old_side(script: Seq<DiffLineView>) -> Seq<char> {
    concat(side_lines(script, ChangeTag::Deleted))
}

/// The text that a script arrives at: its kept and inserted lines, one after
/// the other.
pub open spec fn new_side(script: Seq<DiffLineView>) -> Seq<char> {
    concat(side_lines(script, ChangeTag::Inserted))
}

/// Every element is tagged `Equal`.
pub open spec fn all_equal(script: Seq<DiffLineView>) -> bool {
    forall|i: int| 0 <= i < script.len() ==> (#[trigger] script[i]).tag == ChangeTag::Equal
}

/// Whether the character `c` behind the text `before` starts a line: it does
/// at the start of the text, behind a line feed, and behind a carriage return
/// unless `c` is the line feed that belongs to it.
pub open spec fn starts_line(before: Seq<char>, c: char) -> bool {
    before.len() == 0 || before.last() == '\n' || (before.last() == '\r' && c != '\n')
}

/// The lines of a text. A line ends with a line feed, with a carriage return,
/// or with the two in a row; the last line may end with the text.
pub open spec fn lines(text: Seq<char>) -> Seq<Seq<char>>
    decreases text.len(),
{
    if text.len() == 0 {
        Seq::empty()
    } else if starts_line(text.drop_last(), text.last()) {
        lines(text.drop_last()).push(seq![text.last()])
    } else {
        let before = lines(text.drop_last());
        before.drop_last().push(before.last().push(text.last()))
    }
}

/// `script` leads from `old` to `new` line by line: the lines it keeps or
/// deletes are the lines of `old`, the lines it keeps or inserts are the
/// lines of `new`, and where the two are the same text it keeps every line.
pub open spec fn leads(script: Seq<DiffLineView>, old: Seq<char>, new: Seq<char>) -> bool {
    &&& side_lines(script, ChangeTag::Deleted) == lines(old)
    &&& side_lines(script, ChangeTag::Inserted) == lines(new)
    &&& old == new ==> all_equal(script)
}

/// The lines, each with the same tag.
pub open spec fn tagged(lines: Seq<Seq<char>>, tag: ChangeTag) -> Seq<DiffLineView> {
    lines.map_values(|t: Seq<char>| DiffLineView { tag, text: t })
}

/// The script that compares nothing: it keeps every line where the two texts
/// are the same, and else deletes every old line and inserts every new one.
pub open spec fn plain_script(old: Seq<char>, new: Seq<char>) -> Seq<DiffLineView> {
    if old == new {
        tagged(lines(old), ChangeTag::Equal)
    } else {
        tagged(lines(old), ChangeTag::Deleted) + tagged(lines(new), ChangeTag::Inserted)
    }
}

/// `raw` where it leads from `old` to `new`, the plain script where it does
/// not.
pub open spec fn checked_script(raw: Seq<DiffLineView>, old: Seq<char>, new: Seq<char>) -> Seq<
    DiffLineView,
> {
    if leads(raw, old, new) {
        raw
    } else {
        plain_script(old, new)
    }
}

/// The most lines that two texts may have together for the other crate to
/// compare them: it numbers the lines with 32 bits.
pub const MOST_COMPARED: usize = 0xffff_ffff;

/// Whether the lines of the two texts can be compared by the other crate:
/// together the texts have no more than `MOST_COMPARED` lines.
pub open spec fn comparable(old: Seq<char>, new: Seq<char>) -> bool {
    lines(old).len() + lines(new).len() <= MOST_COMPARED
}

/// The script between two texts: the changes that the line comparison finds,
/// where they lead from `old` to `new`. Texts too long to be compared get the
/// plain script.
pub open spec fn script_between(old: Seq<char>, new: Seq<char>) -> Seq<DiffLineView> {
    if comparable(old, new) {
        checked_script(changes_by_line(old, new), old, new)
    } else {
        plain_script(old, new)
    }
}

/// The script between two texts leads from the one to the other.
pub proof fn script_between_leads(old: Seq<char>, new: Seq<char>)
    ensures
        leads(script_between(old, new), old, new),
{
    checked_script_leads(changes_by_line(old, new), old, new);
    plain_script_leads(old, new);
}

/// A text that is not empty has a line.
pub proof fn lines_of_some_text(text: Seq<char>)
    requires
        text.len() > 0,
    ensures
        lines(text).len() > 0,
    decreases text.len(),
{
    if !starts_line(text.drop_last(), text.last()) {
        lines_of_some_text(text.drop_last());
    }
}

/// The lines of a text make up the text.
pub proof fn lines_make_up_text(text: Seq<char>)
    ensures
        concat(lines(text)) == text,
    decreases text.len(),
{
    if text.len() > 0 {
        let before = text.drop_last();
        let found = lines(before);
        lines_make_up_text(before);
        if starts_line(before, text.last()) {
            assert(found.push(seq![text.last()]).drop_last() =~= found);
            assert(before + seq![text.last()] =~= text);
        } else {
            lines_of_some_text(before);
            let grown = found.drop_last().push(found.last().push(text.last()));
            assert(grown.drop_last() =~= found.drop_last());
            assert(concat(found.drop_last()) + found.last().push(text.last()) =~= concat(found)
                + seq![text.last()]);
            assert(before + seq![text.last()] =~= text);
        }
    }
}

/// The lines of two scripts in a row are the lines of the one and then the
/// lines of the other.
pub proof fn side_lines_of_both(a: Seq<DiffLineView>, b: Seq<DiffLineView>, keep: ChangeTag)
    ensures
        side_lines(a + b, keep) == side_lines(a, keep) + side_lines(b, keep),
    decreases b.len(),
{
    if b.len() == 0 {
        assert(a + b =~= a);
        assert(side_lines(a, keep) + side_lines(b, keep) =~= side_lines(a, keep));
    } else {
        side_lines_of_both(a, b.drop_last(), keep);
        assert((a + b).drop_last() =~= a + b.drop_last());
        assert((a + b).last() == b.last());
        if b.last().tag == ChangeTag::Equal || b.last().tag == keep {
            assert((side_lines(a, keep) + side_lines(b.drop_last(), keep)).push(b.last().text)
                =~= side_lines(a, keep) + side_lines(b.drop_last(), keep).push(b.last().text));
        }
    }
}

/// Lines with one tag are the lines of a side where the side keeps the tag,
/// and none of them where it does not.
pub proof fn side_lines_of_tagged(found: Seq<Seq<char>>, tag: ChangeTag, keep: ChangeTag)
    ensures
        side_lines(tagged(found, tag), keep) == if tag == ChangeTag::Equal || tag == keep {
            found
        } else {
            Seq::<Seq<char>>::empty()
        },
    decreases found.len(),
{
    if found.len() > 0 {
        side_lines_of_tagged(found.drop_last(), tag, keep);
        assert(tagged(found, tag).drop_last() =~= tagged(found.drop_last(), tag));
        if tag == ChangeTag::Equal || tag == keep {
            assert(found.drop_last().push(found.last()) =~= found);
        }
    }
}

/// The plain script leads from the old text to the new one.
pub proof fn plain_script_leads(old: Seq<char>, new: Seq<char>)
    ensures
        leads(plain_script(old, new), old, new),
{
    if old == new {
        side_lines_of_tagged(lines(old), ChangeTag::Equal, ChangeTag::Deleted);
        side_lines_of_tagged(lines(old), ChangeTag::Equal, ChangeTag::Inserted);
    } else {
        let gone = tagged(lines(old), ChangeTag::Deleted);
        let come = tagged(lines(new), ChangeTag::Inserted);
        side_lines_of_both(gone, come, ChangeTag::Deleted);
        side_lines_of_both(gone, come, ChangeTag::Inserted);
        side_lines_of_tagged(lines(old), ChangeTag::Deleted, ChangeTag::Deleted);
        side_lines_of_tagged(lines(old), ChangeTag::Deleted, ChangeTag::Inserted);
        side_lines_of_tagged(lines(new), ChangeTag::Inserted, ChangeTag::Deleted);
        side_lines_of_tagged(lines(new), ChangeTag::Inserted, ChangeTag::Inserted);
        assert(lines(old) + Seq::<Seq<char>>::empty() =~= lines(old));
        assert(Seq::<Seq<char>>::empty() + lines(new) =~= lines(new));
    }
}

/// Whatever the line comparison hands back, the script that is used leads
/// from the old text to the new one.
pub proof fn checked_script_leads(raw: Seq<DiffLineView>, old: Seq<char>, new: Seq<char>)
    ensures
        leads(checked_script(raw, old, new), old, new),
{
    plain_script_leads(old, new);
}

/// A script that leads from one text to another rebuilds both: its kept and
/// deleted lines, one after the other, are the old text, and its kept and
/// inserted lines are the new one.
pub proof fn leading_script_rebuilds(script: Seq<DiffLineView>, old: Seq<char>, new: Seq<char>)
    requires
        leads(script, old, new),
    ensures
        old_side(script) == old,
        new_side(script) == new,
{
    lines_make_up_text(old);
    lines_make_up_text(new);
}

/// The script between two texts rebuilds both: its kept and deleted lines, in
/// order, are the old text, and its kept and inserted lines are the new one.
pub proof fn script_rebuilds_both_texts(old: Seq<char>, new: Seq<char>)
    ensures
        old_side(script_between(old, new)) == old,
        new_side(script_between(old, new)) == new,
{
    script_between_leads(old, new);
    leading_script_rebuilds(script_between(old, new), old, new);
}

/// The script between a text and itself keeps every line, and the lines it
/// keeps are the whole text.
pub proof fn script_of_same_text_keeps_all(text: Seq<char>)
    ensures
        all_equal(script_between(text, text)),
        old_side(script_between(text, text)) == text,
        new_side(script_between(text, text)) == text,
{
    script_between_leads(text, text);
    leading_script_rebuilds(script_between(text, text), text, text);
}

/// Splits a text into its lines.
pub fn split_lines(text: &[char]) -> (r: Vec<Vec<char>>)
    ensures
        texts(r@) == lines(text@),
{
    let mut done: Vec<Vec<char>> = Vec::new();
    let mut current: Vec<char> = Vec::new();
    let mut i: usize = 0;
    assert(text@.take(0) =~= Seq::<char>::empty());
    assert(texts(done@) =~= Seq::<Seq<char>>::empty());
    while i < text.len()
        invariant
            i <= text.len(),
            current.len() == 0 <==> i == 0,
            lines(text@.take(i as int)) == if i == 0 {
                texts(done@)
            } else {
                texts(done@).push(current@)
            },
        decreases text.len() - i,
    {
        let c = text[i];
        let ghost upto = text@.take(i + 1);
        proof {
            assert(upto.drop_last() =~= text@.take(i as int));
            assert(upto.last() == c);
            if i > 0 {
                assert(text@.take(i as int).last() == text@[i - 1]);
                assert(texts(done@).push(current@).drop_last() =~= texts(done@));
            }
        }
        if i == 0 || text[i - 1] == '\n' || (text[i - 1] == '\r' && c != '\n') {
            if i > 0 {
                assert(texts(done@.push(current)) =~= texts(done@).push(current@));
                done.push(current);
            }
            current = Vec::new();
            current.push(c);
            assert(current@ =~= seq![c]);
        } else {
            current.push(c);
        }
        assert(lines(upto) == texts(done@).push(current@));
        i += 1;
    }
    assert(text@.take(text.len() as int) =~= text@);
    if i > 0 {
        assert(texts(done@.push(current)) =~= texts(done@).push(current@));
        done.push(current);
    }
    done
}

/// Appends the lines to a script, each with the same tag.
pub fn push_tagged(out: &mut Vec<DiffLine>, found: &Vec<Vec<char>>, tag: ChangeTag)
    ensures
        script_view(final(out)@) == script_view(old(out)@) + tagged(texts(found@), tag),
{
    let mut i: usize = 0;
    assert(tagged(texts(found@), tag).take(0) =~= Seq::<DiffLineView>::empty());
    while i < found.len()
        invariant
            i <= found.len(),
            script_view(out@) == script_view(old(out)@) + tagged(texts(found@), tag).take(
                i as int,
            ),
        decreases found.len() - i,
    {
        let line = DiffLine { tag, text: text_of(found[i].as_slice()) };
        proof {
            let all = tagged(texts(found@), tag);
            assert(all[i as int] == line@);
            assert(all.take(i + 1) =~= all.take(i as int).push(line@));
            assert(script_view(out@.push(line)) =~= script_view(out@).push(line@));
        }
        out.push(line);
        i += 1;
    }
    assert(tagged(texts(found@), tag).take(found.len() as int) =~= tagged(texts(found@), tag));
}

/// Builds the plain script between two texts.
pub fn plain(old: &[char], new: &[char]) -> (r: Vec<DiffLine>)
    ensures
        script_view(r@) == plain_script(old@, new@),
{
    let mut r: Vec<DiffLine> = Vec::new();
    assert(script_view(r@) =~= Seq::<DiffLineView>::empty());
    let old_lines = split_lines(old);
    if same_chars(old, new) {
        push_tagged(&mut r, &old_lines, ChangeTag::Equal);
    } else {
        let new_lines = split_lines(new);
        push_tagged(&mut r, &old_lines, ChangeTag::Deleted);
        push_tagged(&mut r, &new_lines, ChangeTag::Inserted);
    }
    assert(script_view(r@) =~= plain_script(old@, new@));
    r
}

/// Collects the lines that the elements tagged `Equal` or `keep` speak of.
pub fn side_lines_of(script: &Vec<DiffLine>, keep: ChangeTag) -> (r: Vec<Vec<char>>)
    ensures
        texts(r@) == side_lines(script_view(script@), keep),
{
    let mut r: Vec<Vec<char>> = Vec::new();
    let mut i: usize = 0;
    assert(script_view(script@).take(0) =~= Seq::<DiffLineView>::empty());
    assert(texts(r@) =~= Seq::<Seq<char>>::empty());
    while i < script.len()
        invariant
            i <= script.len(),
            texts(r@) == side_lines(script_view(script@).take(i as int), keep),
        decreases script.len() - i,
    {
        proof {
            let upto = script_view(script@).take(i + 1);
            assert(upto.drop_last() =~= script_view(script@).take(i as int));
            assert(upto.last() == script@[i as int]@);
        }
        if script[i].tag == ChangeTag::Equal || script[i].tag == keep {
            let line = chars_of(script[i].text.as_str());
            assert(texts(r@.push(line)) =~= texts(r@).push(line@));
            r.push(line);
        }
        i += 1;
    }
    assert(script_view(script@).take(script.len() as int) =~= script_view(script@));
    r
}

/// Tells whether the two hold the same lines in the same order.
pub fn same_lines(a: &Vec<Vec<char>>, b: &Vec<Vec<char>>) -> (r: bool)
    ensures
        r == (texts(a@) == texts(b@)),
{
    if a.len() != b.len() {
        return false;
    }
    let mut i: usize = 0;
    while i < a.len()
        invariant
            a.len() == b.len(),
            i <= a.len(),
            forall|j: int| 0 <= j < i ==> a@[j]@ == b@[j]@,
        decreases a.len() - i,
    {
        if !same_chars(a[i].as_slice(), b[i].as_slice()) {
            assert(texts(a@)[i as int] != texts(b@)[i as int]);
            return false;
        }
        i += 1;
    }
    assert(texts(a@) =~= texts(b@));
    true
}

/// Tells whether every element is tagged `Equal`.
pub fn keeps_all(script: &Vec<DiffLine>) -> (r: bool)
    ensures
        r == all_equal(script_view(script@)),
{
    let mut i: usize = 0;
    while i < script.len()
        invariant
            i <= script.len(),
            forall|j: int| 0 <= j < i ==> (#[trigger] script_view(script@)[j]).tag == ChangeTag::Equal,
        decreases script.len() - i,
    {
        if script[i].tag != ChangeTag::Equal {
            assert(script_view(script@)[i as int].tag != ChangeTag::Equal);
            return false;
        }
        i += 1;
    }
    true
}

/// Tells whether a script leads from `old` to `new`.
pub fn leads_from(script: &Vec<DiffLine>, old: &[char], new: &[char]) -> (r: bool)
    ensures
        r == leads(script_view(script@), old@, new@),
{
    let from = side_lines_of(script, ChangeTag::Deleted);
    let to = side_lines_of(script, ChangeTag::Inserted);
    same_lines(&from, &split_lines(old)) && same_lines(&to, &split_lines(new)) && (!same_chars(
        old,
        new,
    ) || keeps_all(script))
}

/// Holds what the line comparison handed back against the two texts: `raw`
/// is returned where it leads from `old` to `new`, the plain script where it
/// does not.
pub fn checked(raw: Vec<DiffLine>, old: &str, new: &str) -> (r: Vec<DiffLine>)
    ensures
        script_view(r@) == checked_script(script_view(raw@), old@, new@),
        leads(script_view(r@), old@, new@),
{
    let old = chars_of(old);
    let new = chars_of(new);
    proof {
        checked_script_leads(script_view(raw@), old@, new@);
    }
    if leads_from(&raw, old.as_slice(), new.as_slice()) {
        raw
    } else {
        plain(old.as_slice(), new.as_slice())
    }
}

/// Tells whether the lines of the two texts can be compared by the other
/// crate.
pub fn are_comparable(old: &[char], new: &[char]) -> (b: bool)
    ensures
        b == comparable(old@, new@),
{
    let old_lines = split_lines(old);
    let new_lines = split_lines(new);
    assert(texts(old_lines@).len() == old_lines@.len());
    assert(texts(new_lines@).len() == new_lines@.len());
    old_lines.len() <= MOST_COMPARED && new_lines.len() <= MOST_COMPARED - old_lines.len()
}

/// Compares two texts line by line.
///
/// The script is what the line comparison finds, held against the two texts
/// as `checked` does it; texts that are too long to be compared get the
/// plain script. So the lines that the script keeps or deletes are the lines
/// of `old` and make up `old`, the lines it keeps or inserts are the lines of
/// `new` and make up `new`, and between a text and itself every line is
/// kept.
pub fn diff(old: &str, new: &str) -> (r: Vec<DiffLine>)
    ensures
        script_view(r@) == script_between(old@, new@),
        leads(script_view(r@), old@, new@),
        old_side(script_view(r@)) == old@,
        new_side(script_view(r@)) == new@,
{
    proof {
        script_between_leads(old@, new@);
        leading_script_rebuilds(script_between(old@, new@), old@, new@);
    }
    let from = chars_of(old);
    let to = chars_of(new);
    if are_comparable(from.as_slice(), to.as_slice()) {
        checked(line_changes(old, new), old, new)
    } else {
        plain(from.as_slice(), to.as_slice())
    }
}

/// The escape sequence that turns the foreground red.
pub open spec fn red_code() -> Seq<char> {
    seq!['\u{1b}', '[', '3', '8', ';', '5', ';', '1', 'm']
}

/// The escape sequence that turns the foreground green.
pub open spec fn green_code() -> Seq<char> {
    seq!['\u{1b}', '[', '3', '8', ';', '5', ';', '2', 'm']
}

/// The escape sequence that turns the foreground back to its default.
pub open spec fn default_code() -> Seq<char> {
    seq!['\u{1b}', '[', '3', '9', 'm']
}

/// Whether a line ends with a line feed or a carriage return.
pub open spec fn ends_line(text: Seq<char>) -> bool {
    text.len() > 0 && (text.last() == '\n' || text.last() == '\r')
}

/// A line as it is shown: as it is where it ends the line, and else with a
/// line feed behind it.
pub open spec fn shown(text: Seq<char>) -> Seq<char> {
    if ends_line(text) {
        text
    } else {
        text.push('\n')
    }
}

/// One element of a script as it is shown: a deleted line in red behind a
/// `-`, an inserted line in green behind a `+`, a kept line behind a space
/// and without colour.
pub open spec fn rendered_line(l: DiffLineView) -> Seq<char> {
    match l.tag {
        ChangeTag::Deleted => red_code() + seq!['-'] + shown(l.text) + default_code(),
        ChangeTag::Inserted => green_code() + seq!['+'] + shown(l.text) + default_code(),
        ChangeTag::Equal => seq![' '] + shown(l.text),
    }
}

/// A script as it is shown: its elements, in order.
pub open spec fn rendered(script: Seq<DiffLineView>) -> Seq<char>
    decreases script.len(),
{
    if script.len() == 0 {
        Seq::empty()
    } else {
        rendered(script.drop_last()) + rendered_line(script.last())
    }
}

/// Appends a line as it is shown.
pub fn push_shown(out: &mut Vec<char>, text: &[char])
    ensures
        final(out)@ == old(out)@ + shown(text@),
{
    push_all(out, text);
    if text.len() == 0 || (text[text.len() - 1] != '\n' && text[text.len() - 1] != '\r') {
        out.push('\n');
        assert(out@ =~= old(out)@ + text@.push('\n'));
    }
}

/// Appends one element of a script as it is shown.
pub fn push_rendered_line(out: &mut Vec<char>, l: &DiffLine)
    ensures
        final(out)@ == old(out)@ + rendered_line(l@),
{
    let text = chars_of(l.text.as_str());
    match l.tag {
        ChangeTag::Deleted => {
            push_all(out, chars_of(red_foreground()).as_slice());
            out.push('-');
            push_shown(out, text.as_slice());
            push_all(out, chars_of(default_foreground()).as_slice());
        },
        ChangeTag::Inserted => {
            push_all(out, chars_of(green_foreground()).as_slice());
            out.push('+');
            push_shown(out, text.as_slice());
            push_all(out, chars_of(default_foreground()).as_slice());
        },
        ChangeTag::Equal => {
            out.push(' ');
            push_shown(out, text.as_slice());
        },
    }
    assert(out@ =~= old(out)@ + rendered_line(l@));
}

/// Appends a script as it is shown.
pub fn push_rendered(out: &mut Vec<char>, script: &Vec<DiffLine>)
    ensures
        final(out)@ == old(out)@ + rendered(script_view(script@)),
{
    let mut i: usize = 0;
    assert(script_view(script@).take(0) =~= Seq::<DiffLineView>::empty());
    while i < script.len()
        invariant
            i <= script.len(),
            out@ == old(out)@ + rendered(script_view(script@).take(i as int)),
        decreases script.len() - i,
    {
        proof {
            let upto = script_view(script@).take(i + 1);
            assert(upto.drop_last() =~= script_view(script@).take(i as int));
            assert(upto.last() == script@[i as int]@);
        }
        push_rendered_line(out, &script[i]);
        i += 1;
    }
    assert(script_view(script@).take(script.len() as int) =~= script_view(script@));
}

/// Shows a script: each element on a line of its own, marked and coloured by
/// its tag.
pub fn render(script: &Vec<DiffLine>) -> (r: String)
    ensures
        r@ == rendered(script_view(script@)),
{
    let mut out: Vec<char> = Vec::new();
    push_rendered(&mut out, script);
    assert(out@ =~= rendered(script_view(script@)));
    text_of(out.as_slice())
}

} // verus!
