//! What holds of the terminal whatever a program writes.

use vstd::prelude::*;

use crate::terminal::buffer::BufferView;
use crate::terminal::events::{EventView, vte_events};
use crate::terminal::screen::{ScreenView, is_screen_mode};

verus! {

/// A screen on which `earlier` replies were already waiting.
pub open spec fn with_earlier(screen: ScreenView, earlier: Seq<Seq<u8>>) -> ScreenView {
    ScreenView { writes: earlier + screen.writes, ..screen }
}

/// What a single step keeps: the size of both screens, the bytes read so far, and the primary
/// screen while the alternate one is shown.
pub open spec fn keeps(before: ScreenView, after: ScreenView) -> bool {
    &&& after.fed == before.fed
    &&& after.primary.cols == before.primary.cols
    &&& after.primary.rows == before.primary.rows
    &&& after.alternate.cols == before.alternate.cols
    &&& after.alternate.rows == before.alternate.rows
    &&& before.active_buffer is Alternate && after.active_buffer is Alternate ==> after.primary
        == before.primary
}

proof fn lemma_modes_step(s: ScreenView, private: bool, params: Seq<Seq<u16>>, on: bool)
    ensures
        keeps(s, s.modes_changed(private, params, on)),
        on && s.active_buffer is Alternate ==> s.modes_changed(
            private,
            params,
            on,
        ).active_buffer is Alternate,
        !on && s.active_buffer is Primary ==> s.modes_changed(
            private,
            params,
            on,
        ).active_buffer is Primary,
    decreases params.len(),
{
    if params.len() > 0 {
        lemma_modes_step(s, private, params.drop_last(), on);
        let mid = s.modes_changed(private, params.drop_last(), on);
        assert(keeps(s, mid));
        if params.last().len() > 0 && params.last()[0] != 0 {
            let mode = params.last()[0];
            let end = mid.mode_changed(private, mode, on);
            assert(keeps(mid, end));
        }
    }
}

proof fn lemma_print_step(s: ScreenView, c: char)
    ensures
        keeps(s, s.printed(c)),
{
    reveal(ScreenView::printed);
    let mid = s.carriage_returned().line_fed();
    assert(keeps(s, mid) && mid.active_buffer == s.active_buffer);
}

#[verifier::rlimit(40)]
proof fn lemma_plain_step(s: ScreenView, params: Seq<Seq<u16>>, action: char)
    ensures
        keeps(s, s.plain_csi(params, action)),
{
    reveal(ScreenView::plain_csi);
}

proof fn lemma_execute_step(s: ScreenView, byte: u8)
    ensures
        keeps(s, s.executed(byte)),
{
    reveal(ScreenView::executed);
}

proof fn lemma_escape_step(s: ScreenView, intermediates: Seq<u8>, byte: u8)
    ensures
        keeps(s, s.escaped(intermediates, byte)),
{
    reveal(ScreenView::escaped);
}

proof fn lemma_keyboard_step(s: ScreenView, params: Seq<Seq<u16>>, marker: u8)
    ensures
        keeps(s, s.keyboard_csi(params, marker)),
{
    reveal(ScreenView::keyboard_csi);
}

proof fn lemma_control_step(
    s: ScreenView,
    params: Seq<Seq<u16>>,
    intermediates: Seq<u8>,
    ignore: bool,
    action: char,
)
    ensures
        keeps(s, s.controlled(params, intermediates, ignore, action)),
{
    let private = intermediates.len() > 0 && intermediates[0] == '?' as u8;
    lemma_modes_step(s, private, params, true);
    lemma_modes_step(s, private, params, false);
    lemma_plain_step(s, params, action);
    lemma_keyboard_step(s, params, intermediates[0]);
}

proof fn lemma_step(s: ScreenView, event: EventView)
    ensures
        keeps(s, s.after(event)),
{
    reveal(ScreenView::after);
    match event {
        EventView::Print(c) => lemma_print_step(s, c),
        EventView::Execute(byte) => lemma_execute_step(s, byte),
        EventView::Osc(params) => {},
        EventView::Csi { params, intermediates, ignore, action } => lemma_control_step(
            s,
            params,
            intermediates,
            ignore,
            action,
        ),
        EventView::Esc { intermediates, byte } => lemma_escape_step(s, intermediates, byte),
    }
}

proof fn lemma_modes_earlier(
    s: ScreenView,
    earlier: Seq<Seq<u8>>,
    private: bool,
    params: Seq<Seq<u16>>,
    on: bool,
)
    ensures
        with_earlier(s, earlier).modes_changed(private, params, on) == with_earlier(
            s.modes_changed(private, params, on),
            earlier,
        ),
    decreases params.len(),
{
    if params.len() > 0 {
        lemma_modes_earlier(s, earlier, private, params.drop_last(), on);
    }
}

proof fn lemma_earlier_reply(s: ScreenView, earlier: Seq<Seq<u8>>, text: Seq<char>)
    ensures
        with_earlier(s, earlier).replied(text) == with_earlier(s.replied(text), earlier),
{
    let reply = vstd::utf8::encode_utf8(text);
    assert(earlier + s.writes.push(reply) =~= (earlier + s.writes).push(reply));
}

proof fn lemma_earlier_print(s: ScreenView, earlier: Seq<Seq<u8>>, c: char)
    ensures
        with_earlier(s, earlier).printed(c) == with_earlier(s.printed(c), earlier),
{
    reveal(ScreenView::printed);
    let t = with_earlier(s, earlier);
    let mid = s.carriage_returned().line_fed();
    assert(t.carriage_returned().line_fed() == with_earlier(mid, earlier));
}

#[verifier::rlimit(60)]
proof fn lemma_earlier_plain(
    s: ScreenView,
    earlier: Seq<Seq<u8>>,
    params: Seq<Seq<u16>>,
    action: char,
)
    ensures
        with_earlier(s, earlier).plain_csi(params, action) == with_earlier(
            s.plain_csi(params, action),
            earlier,
        ),
{
    reveal(ScreenView::plain_csi);
    let t = with_earlier(s, earlier);
    assert forall|request: u16| #[trigger]
        t.status_reported(request) == with_earlier(s.status_reported(request), earlier) by {
        lemma_earlier_reply_status(s, earlier, request);
    }
    assert forall|request: u16| #[trigger]
        t.size_reported(request) == with_earlier(s.size_reported(request), earlier) by {
        lemma_earlier_reply_size(s, earlier, request);
    }
}

proof fn lemma_earlier_reply_status(s: ScreenView, earlier: Seq<Seq<u8>>, request: u16)
    ensures
        with_earlier(s, earlier).status_reported(request) == with_earlier(
            s.status_reported(request),
            earlier,
        ),
{
    assert forall|text: Seq<char>| #[trigger]
        with_earlier(s, earlier).replied(text) == with_earlier(s.replied(text), earlier) by {
        lemma_earlier_reply(s, earlier, text);
    }
}

proof fn lemma_earlier_reply_size(s: ScreenView, earlier: Seq<Seq<u8>>, request: u16)
    ensures
        with_earlier(s, earlier).size_reported(request) == with_earlier(
            s.size_reported(request),
            earlier,
        ),
{
    assert forall|text: Seq<char>| #[trigger]
        with_earlier(s, earlier).replied(text) == with_earlier(s.replied(text), earlier) by {
        lemma_earlier_reply(s, earlier, text);
    }
}

proof fn lemma_earlier_keyboard(
    s: ScreenView,
    earlier: Seq<Seq<u8>>,
    params: Seq<Seq<u16>>,
    marker: u8,
)
    ensures
        with_earlier(s, earlier).keyboard_csi(params, marker) == with_earlier(
            s.keyboard_csi(params, marker),
            earlier,
        ),
{
    reveal(ScreenView::keyboard_csi);
    assert forall|text: Seq<char>| #[trigger]
        with_earlier(s, earlier).replied(text) == with_earlier(s.replied(text), earlier) by {
        lemma_earlier_reply(s, earlier, text);
    }
}

proof fn lemma_earlier_execute(s: ScreenView, earlier: Seq<Seq<u8>>, byte: u8)
    ensures
        with_earlier(s, earlier).executed(byte) == with_earlier(s.executed(byte), earlier),
{
    reveal(ScreenView::executed);
}

proof fn lemma_earlier_escape(
    s: ScreenView,
    earlier: Seq<Seq<u8>>,
    intermediates: Seq<u8>,
    byte: u8,
)
    ensures
        with_earlier(s, earlier).escaped(intermediates, byte) == with_earlier(
            s.escaped(intermediates, byte),
            earlier,
        ),
{
    reveal(ScreenView::escaped);
}

proof fn lemma_earlier_control(
    s: ScreenView,
    earlier: Seq<Seq<u8>>,
    params: Seq<Seq<u16>>,
    intermediates: Seq<u8>,
    ignore: bool,
    action: char,
)
    ensures
        with_earlier(s, earlier).controlled(params, intermediates, ignore, action) == with_earlier(
            s.controlled(params, intermediates, ignore, action),
            earlier,
        ),
{
    let private = intermediates.len() > 0 && intermediates[0] == '?' as u8;
    lemma_modes_earlier(s, earlier, private, params, true);
    lemma_modes_earlier(s, earlier, private, params, false);
    lemma_earlier_plain(s, earlier, params, action);
    lemma_earlier_reply(s, earlier, "\x1b[?1;2c"@);
    lemma_earlier_keyboard(s, earlier, params, intermediates[0]);
}

proof fn lemma_earlier(s: ScreenView, earlier: Seq<Seq<u8>>, event: EventView)
    ensures
        with_earlier(s, earlier).after(event) == with_earlier(s.after(event), earlier),
{
    reveal(ScreenView::after);
    match event {
        EventView::Print(c) => lemma_earlier_print(s, earlier, c),
        EventView::Execute(byte) => lemma_earlier_execute(s, earlier, byte),
        EventView::Osc(params) => {},
        EventView::Csi { params, intermediates, ignore, action } => lemma_earlier_control(
            s,
            earlier,
            params,
            intermediates,
            ignore,
            action,
        ),
        EventView::Esc { intermediates, byte } => lemma_earlier_escape(
            s,
            earlier,
            intermediates,
            byte,
        ),
    }
}

proof fn lemma_steps(s: ScreenView, events: Seq<EventView>)
    ensures
        s.after_all(events).fed == s.fed,
        s.after_all(events).primary.cols == s.primary.cols,
        s.after_all(events).primary.rows == s.primary.rows,
        s.after_all(events).alternate.cols == s.alternate.cols,
        s.after_all(events).alternate.rows == s.alternate.rows,
    decreases events.len(),
{
    if events.len() > 0 {
        lemma_steps(s, events.drop_last());
        lemma_step(s.after_all(events.drop_last()), events.last());
    }
}

proof fn lemma_earlier_all(s: ScreenView, earlier: Seq<Seq<u8>>, events: Seq<EventView>)
    ensures
        with_earlier(s, earlier).after_all(events) == with_earlier(s.after_all(events), earlier),
    decreases events.len(),
{
    if events.len() > 0 {
        lemma_earlier_all(s, earlier, events.drop_last());
        lemma_earlier(s.after_all(events.drop_last()), earlier, events.last());
    }
}

proof fn lemma_earlier_fed(s: ScreenView, earlier: Seq<Seq<u8>>, bytes: Seq<u8>)
    ensures
        with_earlier(s, earlier).fed_with(bytes) == with_earlier(s.fed_with(bytes), earlier),
    decreases bytes.len(),
{
    if bytes.len() > 0 {
        lemma_earlier_fed(s, earlier, bytes.drop_last());
        let before = s.fed_with(bytes.drop_last());
        let reading = ScreenView { fed: before.fed.push(bytes.last()), ..before };
        lemma_earlier_all(reading, earlier, vte_events(before.fed, bytes.last()));
    }
}

/// Nothing a program writes changes the size of the terminal.
pub proof fn law_output_keeps_the_size(s: ScreenView, bytes: Seq<u8>)
    ensures
        s.fed_with(bytes).primary.cols == s.primary.cols,
        s.fed_with(bytes).primary.rows == s.primary.rows,
        s.fed_with(bytes).alternate.cols == s.alternate.cols,
        s.fed_with(bytes).alternate.rows == s.alternate.rows,
    decreases bytes.len(),
{
    if bytes.len() > 0 {
        law_output_keeps_the_size(s, bytes.drop_last());
        let before = s.fed_with(bytes.drop_last());
        lemma_steps(
            ScreenView { fed: before.fed.push(bytes.last()), ..before },
            vte_events(before.fed, bytes.last()),
        );
    }
}

/// The parser has read exactly what the terminal was given.
pub proof fn law_everything_is_read(s: ScreenView, bytes: Seq<u8>)
    ensures
        s.fed_with(bytes).fed == s.fed + bytes,
    decreases bytes.len(),
{
    if bytes.len() > 0 {
        law_everything_is_read(s, bytes.drop_last());
        let before = s.fed_with(bytes.drop_last());
        lemma_steps(
            ScreenView { fed: before.fed.push(bytes.last()), ..before },
            vte_events(before.fed, bytes.last()),
        );
        assert(s.fed + bytes =~= (s.fed + bytes.drop_last()).push(bytes.last()));
    } else {
        assert(s.fed + bytes =~= s.fed);
    }
}

/// It makes no difference how output is cut into pieces: reading one piece after the other leaves
/// the same screen as reading them together, and the replies come in the same order.
pub proof fn law_output_in_pieces(s: ScreenView, first: Seq<u8>, second: Seq<u8>)
    ensures
        s.fed_with(first).drained().fed_with(second).drained() == s.fed_with(first + second).drained(),
        s.fed_with(first).writes + s.fed_with(first).drained().fed_with(second).writes == s.fed_with(
            first + second,
        ).writes,
    decreases second.len(),
{
    lemma_fed_twice(s, first, second);
    let mid = s.fed_with(first);
    assert(with_earlier(mid.drained(), mid.writes) =~= mid) by {
        assert(mid.writes + seq![] =~= mid.writes);
    }
    lemma_earlier_fed(mid.drained(), mid.writes, second);
}

proof fn lemma_fed_twice(s: ScreenView, first: Seq<u8>, second: Seq<u8>)
    ensures
        s.fed_with(first).fed_with(second) == s.fed_with(first + second),
    decreases second.len(),
{
    if second.len() > 0 {
        lemma_fed_twice(s, first, second.drop_last());
        assert((first + second).drop_last() =~= first + second.drop_last());
        assert((first + second).last() == second.last());
    } else {
        assert(first + second =~= first);
    }
}

/// While the alternate screen is shown, nothing touches the primary one.
pub proof fn law_alternate_screen_is_apart(s: ScreenView, event: EventView)
    requires
        s.active_buffer is Alternate,
        s.after(event).active_buffer is Alternate,
    ensures
        s.after(event).primary == s.primary,
{
    lemma_step(s, event);
}

/// A saved cursor comes back, whatever else moved it in between.
pub proof fn law_saved_cursor_comes_back(s: ScreenView, row: int, col: int)
    requires
        s.wf(),
        0 <= row < s.active().rows,
        0 <= col < s.active().cols,
    ensures
        s.cursor_saved().with_cursor(row, col).cursor_restored() == s.cursor_saved(),
        s.cursor_saved().active().cursor == s.active().cursor,
        s.cursor_saved().active().cells == s.active().cells,
{
}

/// Leaving the alternate screen brings the primary one back as it was left, cursor included,
/// whatever was drawn on the alternate screen.
pub proof fn law_leaving_the_alternate_screen(s: ScreenView, mode: u16, drawn: BufferView)
    requires
        s.wf(),
        s.active_buffer is Primary,
        is_screen_mode(true, mode),
    ensures
        ({
            let entered = s.mode_changed(true, mode, true);
            let left = ScreenView { alternate: drawn, ..entered }.mode_changed(true, mode, false);
            &&& entered.active_buffer is Alternate
            &&& left.active_buffer is Primary
            &&& left.primary.cells == s.primary.cells
            &&& left.primary.cursor == s.primary.cursor
            &&& left.primary.scroll_top == s.primary.scroll_top
            &&& left.primary.scroll_bottom == s.primary.scroll_bottom
        }),
{
}

} // verus!
