use crate::config::{
    actions_for_event, matched_actions, trigger_matches, Config, InputTrigger,
};
use crate::protocol::{starts_with, Action};
use vstd::prelude::*;

verus! {

/// One event read from an input device: its key code and its value (1 for a
/// press, 0 for a release, 2 for a repeat).
#[derive(Clone, Copy, Debug, PartialEq, Eq)]
pub struct RawEvent {
    pub code: u16,
    pub value: i32,
}

/// The actions that an event from the device called `device` yields: none unless
/// it is a press, else those of every matching entry in table order.
pub open spec fn event_actions(
    entries: Seq<(InputTrigger, Vec<Action>)>,
    device: Seq<char>,
    event: RawEvent,
) -> Seq<Action> {
    if event.value != 1 {
        Seq::empty()
    } else {
        matched_actions(entries, device, event.code, event.value)
    }
}

/// What a device listener does with one event.
#[derive(Debug, PartialEq, Eq)]
pub enum EventOutcome {
    /// Not a press: discarded before matching.
    Ignored,
    /// A press that no entry handles: only a diagnostic is recorded.
    Unhandled,
    /// Actions to enqueue, in this order.
    Dispatch(Vec<Action>),
}

/// Decides what the listener of the device called `device_name` does with `event`.
pub fn handle_event(config: &Config, device_name: &str, event: RawEvent) -> (r: EventOutcome)
    ensures
        r is Ignored <==> event.value != 1,
        r is Unhandled <==> event.value == 1 && event_actions(
            config.actions@,
            device_name@,
            event,
        ).len() == 0,
        r matches EventOutcome::Dispatch(acts) ==> acts@ == event_actions(
            config.actions@,
            device_name@,
            event,
        ) && acts@.len() > 0,
{
    if event.value != 1 {
        return EventOutcome::Ignored;
    }
    let name = String::from_str(device_name);
    let acts = actions_for_event(&config.actions, &name, event.code, event.value);
    if acts.len() == 0 {
        EventOutcome::Unhandled
    } else {
        EventOutcome::Dispatch(acts)
    }
}

/// An event that is not a press yields no action.
pub proof fn lemma_non_press_yields_nothing(
    entries: Seq<(InputTrigger, Vec<Action>)>,
    device: Seq<char>,
    event: RawEvent,
)
    requires
        event.value != 1,
    ensures
        event_actions(entries, device, event) == Seq::<Action>::empty(),
{
}

/// The matched actions are those of the matching entries: an entry that does not
/// match contributes nothing, and one that matches with no actions contributes
/// nothing either.
proof fn lemma_only_match_contributes(
    entries: Seq<(InputTrigger, Vec<Action>)>,
    device: Seq<char>,
    code: u16,
    value: i32,
)
    requires
        forall|i: int|
            0 <= i < entries.len() && #[trigger] trigger_matches(entries[i].0, device, code, value)
                ==> entries[i].1@.len() == 0,
    ensures
        matched_actions(entries, device, code, value) == Seq::<Action>::empty(),
    decreases entries.len(),
{
    if entries.len() > 0 {
        let e = entries.drop_last();
        assert forall|i: int|
            0 <= i < e.len() && #[trigger] trigger_matches(e[i].0, device, code, value) implies e[i].1@.len()
            == 0 by {
            assert(e[i] == entries[i]);
        }
        lemma_only_match_contributes(e, device, code, value);
        let last = entries.last();
        if trigger_matches(last.0, device, code, value) {
            assert(entries[entries.len() - 1] == last);
            assert(last.1@ =~= Seq::<Action>::empty());
            assert(Seq::<Action>::empty() + last.1@ =~= Seq::<Action>::empty());
        }
    }
}

/// A press whose only matching entry has an empty action list yields no action,
/// so the listener records it as unhandled.
pub proof fn lemma_single_empty_match_yields_nothing(
    entries: Seq<(InputTrigger, Vec<Action>)>,
    device: Seq<char>,
    event: RawEvent,
    k: int,
)
    requires
        0 <= k < entries.len(),
        trigger_matches(entries[k].0, device, event.code, event.value),
        entries[k].1@.len() == 0,
        forall|i: int|
            0 <= i < entries.len() && i != k ==> !#[trigger] trigger_matches(
                entries[i].0,
                device,
                event.code,
                event.value,
            ),
    ensures
        event_actions(entries, device, event) == Seq::<Action>::empty(),
{
    lemma_only_match_contributes(entries, device, event.code, event.value);
}

/// A trigger without device names matches a press of its key from any device:
/// its entry's actions are emitted whatever the device is called.
pub proof fn lemma_any_device_matches(
    trigger: InputTrigger,
    actions: Vec<Action>,
    device: Seq<char>,
    event: RawEvent,
)
    requires
        trigger.device_names is None,
        trigger.key == event.code,
        trigger.value is None || trigger.value == Some(event.value),
        event.value == 1,
    ensures
        event_actions(seq![(trigger, actions)], device, event) == actions@,
{
    let t = seq![(trigger, actions)];
    let none = Seq::<(InputTrigger, Vec<Action>)>::empty();
    assert(t.drop_last() =~= none);
    assert(t.last() == (trigger, actions));
    assert(matched_actions(none, device, event.code, event.value) == Seq::<Action>::empty());
    assert(Seq::<Action>::empty() + actions@ =~= actions@);
    assert(matched_actions(t, device, event.code, event.value) == Seq::<Action>::empty()
        + actions@);
}

/// Two entries that both match a press yield the concatenation of their action
/// lists, in table order.
pub proof fn lemma_two_matches_concatenate(
    first: (InputTrigger, Vec<Action>),
    second: (InputTrigger, Vec<Action>),
    device: Seq<char>,
    event: RawEvent,
)
    requires
        event.value == 1,
        trigger_matches(first.0, device, event.code, event.value),
        trigger_matches(second.0, device, event.code, event.value),
    ensures
        event_actions(seq![first, second], device, event) == first.1@ + second.1@,
{
    let t = seq![first, second];
    let one = seq![first];
    let none = Seq::<(InputTrigger, Vec<Action>)>::empty();
    assert(t.drop_last() =~= one);
    assert(t.last() == second);
    assert(one.drop_last() =~= none);
    assert(one.last() == first);
    assert(matched_actions(none, device, event.code, event.value) == Seq::<Action>::empty());
    assert(Seq::<Action>::empty() + first.1@ =~= first.1@);
    assert(matched_actions(one, device, event.code, event.value) == first.1@);
    assert(matched_actions(t, device, event.code, event.value) == first.1@ + second.1@);
}

/// The kind of a filesystem event in the device directory.
#[derive(Clone, Copy, Debug, PartialEq, Eq)]
pub enum FsEventKind {
    /// A regular file was created.
    CreateFile,
    /// Something other than a regular file was created.
    CreateOther,
    Modify,
    Remove,
    Other,
}

/// One path named by a filesystem event, with its last component where it has one.
#[derive(Clone, Debug, PartialEq, Eq)]
pub struct FsEntry {
    pub path: String,
    pub file_name: Option<String>,
}

/// The prefix that the name of every input device node carries: `event`.
pub open spec fn device_prefix() -> Seq<char> {
    seq!['e', 'v', 'e', 'n', 't']
}

/// Whether a file name follows the naming convention of input device nodes.
pub open spec fn is_device_name(name: Seq<char>) -> bool {
    name.len() >= device_prefix().len() && name.subrange(0, device_prefix().len() as int)
        == device_prefix()
}

/// The paths among `entries` whose file name follows the naming convention, in order.
pub open spec fn device_paths(entries: Seq<FsEntry>) -> Seq<String>
    decreases entries.len(),
{
    if entries.len() == 0 {
        Seq::empty()
    } else {
        let earlier = device_paths(entries.drop_last());
        let last = entries.last();
        if last.file_name is Some && is_device_name(last.file_name->0@) {
            earlier.push(last.path)
        } else {
            earlier
        }
    }
}

/// The new devices that a filesystem event announces: only the creation of a
/// file counts, and only paths named like device nodes.
pub open spec fn arrivals(kind: FsEventKind, entries: Seq<FsEntry>) -> Seq<String> {
    if kind == FsEventKind::CreateFile {
        device_paths(entries)
    } else {
        Seq::empty()
    }
}

/// Whether a file name follows the naming convention of input device nodes.
pub fn is_device_file_name(name: &str) -> (r: bool)
    ensures
        r == is_device_name(name@),
{
    let prefix = "event";
    proof {
        reveal_strlit("event");
    }
    assert(prefix@ =~= device_prefix());
    starts_with(name, prefix)
}

/// The paths of the devices to open after a filesystem event, in the event's order.
pub fn device_arrivals(kind: FsEventKind, entries: &Vec<FsEntry>) -> (r: Vec<String>)
    ensures
        r@ == arrivals(kind, entries@),
{
    let mut out: Vec<String> = Vec::new();
    match kind {
        FsEventKind::CreateFile => {},
        _ => {
            return out;
        },
    }
    let mut i: usize = 0;
    assert(entries@.take(0) =~= Seq::<FsEntry>::empty());
    while i < entries.len()
        invariant
            kind == FsEventKind::CreateFile,
            i <= entries@.len(),
            out@ == device_paths(entries@.take(i as int)),
        decreases entries.len() - i,
    {
        let e = &entries[i];
        assert(entries@.take(i + 1).drop_last() =~= entries@.take(i as int));
        assert(entries@.take(i + 1).last() == entries@[i as int]);
        match &e.file_name {
            Some(n) => {
                if is_device_file_name(n.as_str()) {
                    out.push(e.path.clone());
                }
            },
            None => {},
        }
        i = i + 1;
    }
    assert(entries@.take(entries@.len() as int) =~= entries@);
    out
}

/// The device paths that currently have a listener: a device whose path is
/// claimed is not opened again.
pub struct DeviceRegistry {
    paths: Vec<String>,
}

/// The set of texts that a sequence of strings holds.
pub open spec fn text_set(v: Seq<String>) -> Set<Seq<char>> {
    Set::new(|p: Seq<char>| exists|i: int| 0 <= i < v.len() && v[i]@ == p)
}

/// The strings of `v` other than `p`.
fn without(v: &Vec<String>, p: &String) -> (r: Vec<String>)
    ensures
        text_set(r@) == text_set(v@).remove(p@),
{
    let mut kept: Vec<String> = Vec::new();
    let mut i: usize = 0;
    assert(text_set(kept@) =~= Set::<Seq<char>>::empty());
    while i < v.len()
        invariant
            i <= v@.len(),
            forall|q: Seq<char>|
                #[trigger] text_set(kept@).contains(q) <==> (q != p@ && exists|j: int|
                    0 <= j < i && v@[j]@ == q),
        decreases v.len() - i,
    {
        let ghost old_kept = kept@;
        let keep = !(v[i] == *p);
        if keep {
            kept.push(v[i].clone());
        }
        assert forall|q: Seq<char>|
            #[trigger] text_set(kept@).contains(q) <==> (q != p@ && exists|j: int|
                0 <= j < i + 1 && v@[j]@ == q) by {
            assert(text_set(old_kept).contains(q) <==> (q != p@ && exists|j: int|
                0 <= j < i && v@[j]@ == q));
            if text_set(kept@).contains(q) {
                let k = choose|k: int| 0 <= k < kept@.len() && kept@[k]@ == q;
                if k < old_kept.len() {
                    assert(kept@[k] == old_kept[k]);
                    assert(text_set(old_kept).contains(q));
                } else {
                    assert(keep);
                    assert(kept@[k] == v@[i as int]);
                }
            }
            if q != p@ && exists|j: int| 0 <= j < i + 1 && v@[j]@ == q {
                let j = choose|j: int| 0 <= j < i + 1 && v@[j]@ == q;
                if j < i {
                    assert(text_set(old_kept).contains(q));
                    let k = choose|k: int| 0 <= k < old_kept.len() && old_kept[k]@ == q;
                    assert(kept@[k] == old_kept[k]);
                } else {
                    assert(keep);
                    assert(kept@[kept@.len() - 1]@ == q);
                }
            }
        }
        i = i + 1;
    }
    assert(text_set(kept@) =~= text_set(v@).remove(p@));
    kept
}

impl DeviceRegistry {
    /// The set of claimed paths.
    pub closed spec fn view(&self) -> Set<Seq<char>> {
        text_set(self.paths@)
    }

    /// A registry with no path claimed.
    pub fn new() -> (r: DeviceRegistry)
        ensures
            r.view() == Set::<Seq<char>>::empty(),
    {
        let r = DeviceRegistry { paths: Vec::new() };
        assert(r.view() =~= Set::<Seq<char>>::empty());
        r
    }

    fn holds(&self, path: &String) -> (r: bool)
        ensures
            r == self.view().contains(path@),
    {
        let mut i: usize = 0;
        while i < self.paths.len()
            invariant
                i <= self.paths@.len(),
                forall|j: int| 0 <= j < i ==> self.paths@[j]@ != path@,
            decreases self.paths.len() - i,
        {
            if self.paths[i] == *path {
                assert(text_set(self.paths@).contains(path@));
                return true;
            }
            i = i + 1;
        }
        false
    }

    /// Whether a listener holds the device at `path`.
    pub fn is_claimed(&self, path: &str) -> (r: bool)
        ensures
            r == self.view().contains(path@),
    {
        let p = String::from_str(path);
        self.holds(&p)
    }

    /// Claims the device at `path` for a new listener. Fails, changing nothing,
    /// where the path is already claimed.
    pub fn claim(&mut self, path: &str) -> (r: bool)
        ensures
            r == !old(self).view().contains(path@),
            final(self).view() == old(self).view().insert(path@),
    {
        let p = String::from_str(path);
        if self.holds(&p) {
            assert(self.view() =~= self.view().insert(path@));
            false
        } else {
            let ghost before = self.paths@;
            self.paths.push(p);
            assert(self.view() =~= old(self).view().insert(path@)) by {
                assert(self.paths@[before.len() as int]@ == path@);
                assert forall|q: Seq<char>| #[trigger] old(self).view().contains(q) implies self.view().contains(q) by {
                    let k = choose|k: int| 0 <= k < before.len() && before[k]@ == q;
                    assert(self.paths@[k] == before[k]);
                }
                assert forall|q: Seq<char>| #[trigger] self.view().contains(q) && q != path@ implies old(self).view().contains(q) by {
                    let k = choose|k: int| 0 <= k < self.paths@.len() && self.paths@[k]@ == q;
                    assert(k < before.len());
                    assert(self.paths@[k] == before[k]);
                }
            }
            true
        }
    }

    /// Gives up the claim on the device at `path`, once its listener has ended.
    /// Returns whether it was claimed.
    pub fn release(&mut self, path: &str) -> (r: bool)
        ensures
            r == old(self).view().contains(path@),
            final(self).view() == old(self).view().remove(path@),
    {
        let p = String::from_str(path);
        let was = self.holds(&p);
        let kept = without(&self.paths, &p);
        self.paths = kept;
        assert(self.view() =~= old(self).view().remove(path@));
        was
    }
}

/// Table order: the actions matched in a table made of two parts are those
/// matched in the first part followed by those matched in the second.
pub proof fn lemma_matches_follow_table_order(
    front: Seq<(InputTrigger, Vec<Action>)>,
    back: Seq<(InputTrigger, Vec<Action>)>,
    device: Seq<char>,
    code: u16,
    value: i32,
)
    ensures
        matched_actions(front + back, device, code, value) == matched_actions(front, device, code, value)
            + matched_actions(back, device, code, value),
    decreases back.len(),
{
    if back.len() == 0 {
        assert(front + back =~= front);
        assert(matched_actions(front, device, code, value) + Seq::<Action>::empty()
            =~= matched_actions(front, device, code, value));
    } else {
        let all = front + back;
        assert(all.drop_last() =~= front + back.drop_last());
        assert(all.last() == back.last());
        lemma_matches_follow_table_order(front, back.drop_last(), device, code, value);
        let f = matched_actions(front, device, code, value);
        let b = matched_actions(back.drop_last(), device, code, value);
        if trigger_matches(back.last().0, device, code, value) {
            assert(f + b + back.last().1@ =~= f + (b + back.last().1@));
        }
    }
}

} // verus!
