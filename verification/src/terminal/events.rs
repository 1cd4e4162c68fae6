//! The events that a byte stream from a program decodes to.

use vstd::prelude::*;

verus! {

/// `vte::Parser` holds the state of an escape sequence that is being read.
#[verifier::external_type_specification]
#[verifier::external_body]
pub struct ExParser<const OSC_RAW_BUF_SIZE: usize>(vte::Parser<OSC_RAW_BUF_SIZE>);

/// `vte::Params` holds the numeric parameters of a control sequence.
#[verifier::external_type_specification]
#[verifier::external_body]
pub struct ExParams(vte::Params);

/// Something that a byte stream asks the terminal to do.
#[derive(Debug)]
pub enum TermEvent {
    /// Draw a character.
    Print(char),
    /// Execute a control character.
    Execute(u8),
    /// An operating system command, split at its semicolons.
    Osc(Vec<Vec<u8>>),
    /// A control sequence. `ignore` says that it was too long to be kept whole.
    Csi { params: Vec<Vec<u16>>, intermediates: Vec<u8>, ignore: bool, action: char },
    /// An escape sequence.
    Esc { intermediates: Vec<u8>, byte: u8 },
}

/// The mathematical content of a [`TermEvent`].
#[verifier::ext_equal]
pub enum EventView {
    Print(char),
    Execute(u8),
    Osc(Seq<Seq<u8>>),
    Csi { params: Seq<Seq<u16>>, intermediates: Seq<u8>, ignore: bool, action: char },
    Esc { intermediates: Seq<u8>, byte: u8 },
}

pub open spec fn byte_lists(lists: Seq<Vec<u8>>) -> Seq<Seq<u8>> {
    lists.map_values(|list: Vec<u8>| list@)
}

pub open spec fn number_lists(lists: Seq<Vec<u16>>) -> Seq<Seq<u16>> {
    lists.map_values(|list: Vec<u16>| list@)
}

impl View for TermEvent {
    type V = EventView;

    open spec fn view(&self) -> EventView {
        match *self {
            TermEvent::Print(c) => EventView::Print(c),
            TermEvent::Execute(byte) => EventView::Execute(byte),
            TermEvent::Osc(params) => EventView::Osc(byte_lists(params@)),
            TermEvent::Csi { params, intermediates, ignore, action } => EventView::Csi {
                params: number_lists(params@),
                intermediates: intermediates@,
                ignore,
                action,
            },
            TermEvent::Esc { intermediates, byte } => EventView::Esc {
                intermediates: intermediates@,
                byte,
            },
        }
    }
}

pub open spec fn event_views(events: Seq<TermEvent>) -> Seq<EventView> {
    events.map_values(|event: TermEvent| event@)
}

/// The parameters that a `vte::Params` holds, each with its subparameters.
pub uninterp spec fn vte_params(params: vte::Params) -> Seq<Seq<u16>>;

/// The byte strings after which a fresh `vte::Parser` is in the same state as this one.
pub uninterp spec fn vte_histories(parser: vte::Parser<1024>) -> Set<Seq<u8>>;

/// The events that a fresh `vte::Parser` reports for `byte` once it has read `history`.
pub uninterp spec fn vte_events(history: Seq<u8>, byte: u8) -> Seq<EventView>;

/// `vte::Params::iter` yields the parameters in order, each as the slice of its subparameters.
#[verifier::external_body]
fn params_to_vec(params: &vte::Params) -> (out: Vec<Vec<u16>>)
    ensures
        number_lists(out@) == vte_params(*params),
{
    params.iter().map(|param| param.to_vec()).collect()
}

/// `vte::Parser::new` gives a parser that has read nothing.
#[verifier::external_body]
pub(crate) fn new_parser() -> (parser: vte::Parser<1024>)
    ensures
        vte_histories(parser).contains(Seq::empty()),
{
    vte::Parser::new()
}

/// `vte::Parser::advance` reads one byte and reports events to its performer. The events, and the
/// state it ends in, are those of any fresh parser that has read the same bytes.
#[verifier::external_body]
pub(crate) fn advance(parser: &mut vte::Parser<1024>, byte: u8) -> (events: Vec<TermEvent>)
    ensures
        forall|history: Seq<u8>| #[trigger]
            vte_histories(*old(parser)).contains(history) ==> {
                &&& vte_histories(*final(parser)).contains(history.push(byte))
                &&& event_views(events@) == vte_events(history, byte)
            },
{
    let mut collector = Collector { events: Vec::new() };
    parser.advance(&mut collector, byte);
    collector.events
}

/// Keeps the events that a parser reports, in order.
pub struct Collector {
    pub events: Vec<TermEvent>,
}

fn copy_lists(lists: &[&[u8]]) -> (out: Vec<Vec<u8>>)
    ensures
        out.len() == lists@.len(),
        forall|i: int| 0 <= i < out.len() ==> (#[trigger] out@[i])@ == lists@[i]@,
{
    let mut out: Vec<Vec<u8>> = Vec::new();
    let mut i: usize = 0;
    while i < lists.len()
        invariant
            i <= lists@.len(),
            out.len() == i,
            forall|j: int| 0 <= j < i ==> (#[trigger] out@[j])@ == lists@[j]@,
        decreases lists@.len() - i,
    {
        out.push(vstd::slice::slice_to_vec(lists[i]));
        i += 1;
    }
    out
}

impl vte::Perform for Collector {
    fn print(&mut self, c: char)
        ensures
            final(self).events@ == old(self).events@.push(TermEvent::Print(c)),
    {
        self.events.push(TermEvent::Print(c));
    }

    fn execute(&mut self, byte: u8)
        ensures
            final(self).events@ == old(self).events@.push(TermEvent::Execute(byte)),
    {
        self.events.push(TermEvent::Execute(byte));
    }

    fn osc_dispatch(&mut self, params: &[&[u8]], _bell_terminated: bool)
        ensures
            final(self).events@.drop_last() == old(self).events@,
            final(self).events@.last()@ == EventView::Osc(
                params@.map_values(|param: &[u8]| param@),
            ),
    {
        let copied = copy_lists(params);
        assert(byte_lists(copied@) =~= params@.map_values(|param: &[u8]| param@));
        self.events.push(TermEvent::Osc(copied));
        assert(self.events@.drop_last() =~= old(self).events@);
    }

    fn csi_dispatch(&mut self, params: &vte::Params, intermediates: &[u8], ignore: bool, action: char)
        ensures
            final(self).events@.drop_last() == old(self).events@,
            final(self).events@.last()@ == (EventView::Csi {
                params: vte_params(*params),
                intermediates: intermediates@,
                ignore,
                action,
            }),
    {
        self.events.push(
            TermEvent::Csi {
                params: params_to_vec(params),
                intermediates: vstd::slice::slice_to_vec(intermediates),
                ignore,
                action,
            },
        );
        assert(self.events@.drop_last() =~= old(self).events@);
    }

    fn esc_dispatch(&mut self, intermediates: &[u8], _ignore: bool, byte: u8)
        ensures
            final(self).events@.drop_last() == old(self).events@,
            final(self).events@.last()@ == (EventView::Esc { intermediates: intermediates@, byte }),
    {
        self.events.push(
            TermEvent::Esc { intermediates: vstd::slice::slice_to_vec(intermediates), byte },
        );
        assert(self.events@.drop_last() =~= old(self).events@);
    }
}

} // verus!
