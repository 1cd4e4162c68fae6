//! What is left of a program's output when it is shown as plain text.

use vstd::prelude::*;

use crate::pty::{is_plain, plain_text, start_directory, state_after};

verus! {

proof fn lemma_one_more(bytes: Seq<u8>, byte: u8)
    ensures
        bytes.push(byte).drop_last() == bytes,
        bytes.push(byte).last() == byte,
{
    assert(bytes.push(byte).drop_last() =~= bytes);
}

/// Printable characters, tabs and newlines are shown. A backspace takes back what came before it,
/// and other control characters are left out.
pub proof fn law_characters_are_shown(bytes: Seq<u8>, byte: u8)
    requires
        state_after(bytes) is Ground,
    ensures
        byte == 10 || byte == 9 || 0x20 <= byte <= 0x7e ==> plain_text(bytes.push(byte))
            == plain_text(bytes).push(byte as char),
        byte == 8 && plain_text(bytes).len() > 0 ==> plain_text(bytes.push(byte)) == plain_text(
            bytes,
        ).drop_last(),
        byte == 8 && plain_text(bytes).len() == 0 ==> plain_text(bytes.push(byte)) == plain_text(
            bytes,
        ),
        byte < 8 || 10 < byte < 0x20 || byte >= 0x7f ==> plain_text(bytes.push(byte)) == plain_text(
            bytes,
        ),
        byte != 0x1b ==> state_after(bytes.push(byte)) is Ground,
{
    lemma_one_more(bytes, byte);
}

/// A character that is printed and taken back leaves no trace.
pub proof fn law_backspace_takes_back(bytes: Seq<u8>, byte: u8)
    requires
        state_after(bytes) is Ground,
        is_plain(byte),
    ensures
        plain_text(bytes.push(byte).push(8)) == plain_text(bytes),
        state_after(bytes.push(byte).push(8)) is Ground,
{
    law_characters_are_shown(bytes, byte);
    law_characters_are_shown(bytes.push(byte), 8);
    assert(plain_text(bytes).push(byte as char).drop_last() =~= plain_text(bytes));
}

/// A control sequence, from the escape character to the letter that ends it, leaves no trace.
pub proof fn law_control_sequences_leave_no_trace(bytes: Seq<u8>, params: Seq<u8>, end: u8)
    requires
        state_after(bytes) is Ground,
        forall|i: int| 0 <= i < params.len() ==> !(0x40 <= #[trigger] params[i] <= 0x7e),
        0x40 <= end <= 0x7e,
    ensures
        plain_text((bytes + seq![0x1bu8, 0x5b] + params).push(end)) == plain_text(bytes),
        state_after((bytes + seq![0x1bu8, 0x5b] + params).push(end)) is Ground,
{
    lemma_inside_csi(bytes, params);
    lemma_one_more(bytes + seq![0x1bu8, 0x5b] + params, end);
}

proof fn lemma_inside_csi(bytes: Seq<u8>, params: Seq<u8>)
    requires
        state_after(bytes) is Ground,
        forall|i: int| 0 <= i < params.len() ==> !(0x40 <= #[trigger] params[i] <= 0x7e),
    ensures
        plain_text(bytes + seq![0x1bu8, 0x5b] + params) == plain_text(bytes),
        state_after(bytes + seq![0x1bu8, 0x5b] + params) is Csi,
    decreases params.len(),
{
    if params.len() == 0 {
        lemma_one_more(bytes, 0x1b);
        assert(plain_text(bytes.push(0x1b)) == plain_text(bytes));
        assert(state_after(bytes.push(0x1b)) is Escape);
        lemma_one_more(bytes.push(0x1b), 0x5b);
        assert(bytes + seq![0x1bu8, 0x5b] + params =~= bytes.push(0x1b).push(0x5b));
    } else {
        assert(!(0x40 <= params[params.len() - 1] <= 0x7e));
        lemma_inside_csi(bytes, params.drop_last());
        let before = bytes + seq![0x1bu8, 0x5b] + params.drop_last();
        lemma_one_more(before, params.last());
        assert(bytes + seq![0x1bu8, 0x5b] + params =~= before.push(params.last()));
    }
}

/// What sets the title of a window, up to the bell that ends it, leaves no trace.
pub proof fn law_titles_leave_no_trace(bytes: Seq<u8>, title: Seq<u8>)
    requires
        state_after(bytes) is Ground,
        forall|i: int| 0 <= i < title.len() ==> #[trigger] title[i] != 7 && title[i] != 0x1b,
    ensures
        plain_text((bytes + seq![0x1bu8, 0x5d] + title).push(7)) == plain_text(bytes),
        state_after((bytes + seq![0x1bu8, 0x5d] + title).push(7)) is Ground,
        plain_text((bytes + seq![0x1bu8, 0x5d] + title).push(0x1b).push(0x5c)) == plain_text(bytes),
        state_after((bytes + seq![0x1bu8, 0x5d] + title).push(0x1b).push(0x5c)) is Ground,
{
    lemma_inside_osc(bytes, title);
    let before = bytes + seq![0x1bu8, 0x5d] + title;
    lemma_one_more(before, 7);
    lemma_one_more(before, 0x1b);
    assert(plain_text(before.push(0x1b)) == plain_text(bytes));
    assert(state_after(before.push(0x1b)) is OscEscape);
    lemma_one_more(before.push(0x1b), 0x5c);
}

proof fn lemma_inside_osc(bytes: Seq<u8>, title: Seq<u8>)
    requires
        state_after(bytes) is Ground,
        forall|i: int| 0 <= i < title.len() ==> #[trigger] title[i] != 7 && title[i] != 0x1b,
    ensures
        plain_text(bytes + seq![0x1bu8, 0x5d] + title) == plain_text(bytes),
        state_after(bytes + seq![0x1bu8, 0x5d] + title) is Osc,
    decreases title.len(),
{
    if title.len() == 0 {
        lemma_one_more(bytes, 0x1b);
        assert(plain_text(bytes.push(0x1b)) == plain_text(bytes));
        assert(state_after(bytes.push(0x1b)) is Escape);
        lemma_one_more(bytes.push(0x1b), 0x5d);
        assert(bytes + seq![0x1bu8, 0x5d] + title =~= bytes.push(0x1b).push(0x5d));
    } else {
        assert(title[title.len() - 1] != 7);
        lemma_inside_osc(bytes, title.drop_last());
        let before = bytes + seq![0x1bu8, 0x5d] + title.drop_last();
        lemma_one_more(before, title.last());
        assert(bytes + seq![0x1bu8, 0x5d] + title =~= before.push(title.last()));
    }
}

/// A shell starts where the app was started, and in the home directory where that is the root or
/// is not known.
pub proof fn law_shells_start_somewhere(cwd: Seq<char>, home: Seq<char>)
    ensures
        cwd != "/"@ ==> start_directory(Some(cwd), Some(home)) == cwd,
        start_directory(Some("/"@), Some(home)) == home,
        start_directory(Some(cwd), None) == cwd,
        start_directory(None, Some(home)) == home,
        start_directory(None, None) == "/"@,
{
}

} // verus!
