//! The mixer's list of applications, the current selection, and the frame
//! that shows the selection and its neighbours on the display.

use std::collections::BTreeMap;
use vstd::prelude::*;
use vstd::std_specs::btree::spec_keys_iter;
use vstd::std_specs::iter::IteratorSpec;
use vstd::utf8::encode_utf8;
use vstd::string::StringSliceAdditionalSpecFns;

use crate::audio::AudioMsg;
use crate::keys::{
    lemma_increasing_u32, lemma_sorted_keys_exist, lemma_sorted_keys_of, lemma_u32_key_order,
    sorted_keys, strictly_increasing,
};
use crate::serial::{ControlMsg, FramePacket, FRAME_HEADER};
use crate::{ENTRY_SIZE, FRAME_SIZE, MAX_NAME_LEN};

verus! {

/// Volume, mute state and display name of one application.
#[derive(Debug)]
pub struct VolumeStatus {
    pub volume: u8,
    pub muted: bool,
    pub name: String,
}

/// The mathematical state of a mixer: the applications by process id, how
/// many the mixer counts, and the position of the selected one among the
/// process ids in ascending order.
pub struct MixerView {
    pub apps: Map<u32, VolumeStatus>,
    pub count: nat,
    pub selected: nat,
}

impl MixerView {
    /// Process ids of the applications, in ascending order.
    pub open spec fn keys(self) -> Seq<u32> {
        sorted_keys(self.apps.dom())
    }

    /// The count matches the applications, the key order is a true ascending
    /// order of them, and the selection points at an application when there is one.
    pub open spec fn well_formed(self) -> bool {
        &&& self.apps.dom().finite()
        &&& strictly_increasing(self.keys())
        &&& self.keys().to_set() == self.apps.dom()
        &&& self.count == self.keys().len()
        &&& self.count == 0 ==> self.selected == 0
        &&& self.count > 0 ==> self.selected < self.count
    }

    /// Process id of the selected application.
    pub open spec fn selected_pid(self) -> u32 {
        self.keys()[self.selected as int]
    }

    /// The selection after one step of the navigation knob: up moves to the
    /// next application, down to the previous one, both wrapping around.
    pub open spec fn scrolled(self, is_up: bool) -> MixerView {
        MixerView {
            selected: if is_up {
                (((self.selected + 1) as int) % (self.count as int)) as nat
            } else {
                (((self.count + self.selected) - 1) % (self.count as int)) as nat
            },
            ..self
        }
    }

    /// Whether the mixer can take the message: an opened application is new
    /// and a closed one is tracked; the audio side reports no other.
    pub open spec fn accepts(self, message: AudioMsg) -> bool {
        match message {
            AudioMsg::AppOpened { pid, .. } => !self.apps.contains_key(pid),
            AudioMsg::VolumeChanged { .. } => true,
            AudioMsg::AppClosed { pid } => self.apps.contains_key(pid),
        }
    }

    /// The state after an audio message. Closing the selected application at
    /// the end of the list selects the one before it; closing the last
    /// application leaves an empty mixer with the selection at the start.
    pub open spec fn updated(self, message: AudioMsg, select_new_app: bool) -> MixerView {
        match message {
            AudioMsg::AppOpened { pid, name, volume, muted } => {
                let apps = self.apps.insert(pid, VolumeStatus { volume, muted, name });
                MixerView {
                    apps,
                    count: self.count + 1,
                    selected: if select_new_app {
                        sorted_keys(apps.dom()).index_of(pid) as nat
                    } else {
                        self.selected
                    },
                }
            },
            AudioMsg::VolumeChanged { pid, volume, muted } => {
                if self.apps.contains_key(pid) {
                    MixerView {
                        apps: self.apps.insert(
                            pid,
                            VolumeStatus { volume, muted, name: self.apps[pid].name },
                        ),
                        ..self
                    }
                } else {
                    self
                }
            },
            AudioMsg::AppClosed { pid } => {
                let apps = self.apps.remove(pid);
                MixerView {
                    apps,
                    count: (self.count - 1) as nat,
                    selected: if self.selected >= apps.dom().len() && self.selected > 0 {
                        (self.selected - 1) as nat
                    } else {
                        self.selected
                    },
                }
            },
        }
    }

    /// Status of the application at a position of the key order.
    pub open spec fn app_at(self, i: int) -> Option<VolumeStatus> {
        Some(self.apps[self.keys()[i]])
    }

    /// The previous, selected and next applications that the display shows.
    /// Two applications keep their order on screen instead of wrapping;
    /// three or more wrap around the list.
    pub open spec fn shown(self) -> (Option<VolumeStatus>, Option<VolumeStatus>, Option<VolumeStatus>) {
        let c = self.count as int;
        let s = self.selected as int;
        if c == 0 {
            (None, None, None)
        } else if c == 1 {
            (None, self.app_at(s), None)
        } else if c == 2 {
            if s == 0 {
                (None, self.app_at(s), self.app_at(1))
            } else {
                (self.app_at(0), self.app_at(s), None)
            }
        } else {
            (self.app_at((c + s - 1) % c), self.app_at(s), self.app_at((s + 1) % c))
        }
    }
}

/// The name as the display shows it: its UTF-8 bytes cut to 19, then zeros up
/// to 20 bytes, so that the last byte is always a terminating zero.
pub open spec fn name_field(name: Seq<char>) -> Seq<u8> {
    let b = encode_utf8(name);
    let n: int = if b.len() < MAX_NAME_LEN - 1 { b.len() as int } else { (MAX_NAME_LEN - 1) as int };
    Seq::new(MAX_NAME_LEN as nat, |i: int| if i < n { b[i] } else { 0u8 })
}

/// Bytes of a display entry: volume, mute flag (1 or 0), name field; all zero
/// for an empty slot.
pub open spec fn entry_bytes(status: Option<VolumeStatus>) -> Seq<u8> {
    match status {
        Some(st) => seq![st.volume, if st.muted { 1u8 } else { 0u8 }] + name_field(st.name@),
        None => Seq::new(ENTRY_SIZE as nat, |i: int| 0u8),
    }
}

/// The bytes of a frame packet: header, then previous, selected and next entry.
pub open spec fn frame_bytes(
    shown: (Option<VolumeStatus>, Option<VolumeStatus>, Option<VolumeStatus>),
) -> Seq<u8> {
    seq![FRAME_HEADER] + entry_bytes(shown.0) + entry_bytes(shown.1) + entry_bytes(shown.2)
}

/// Manages the state of the mixer: all applications and the selection.
pub struct MixerManager {
    apps: BTreeMap<u32, VolumeStatus>,
    count: usize,
    selected_index: usize,
}

impl View for MixerManager {
    type V = MixerView;

    closed spec fn view(&self) -> MixerView {
        MixerView {
            apps: self.apps@,
            count: self.count as nat,
            selected: self.selected_index as nat,
        }
    }
}

/// The ascending key sequence of a map is the one the standard map walks.
proof fn lemma_btree_keys<V>(m: &BTreeMap<u32, V>)
    ensures
        m@.dom().finite(),
        strictly_increasing(sorted_keys(m@.dom())),
        sorted_keys(m@.dom()).to_set() == m@.dom(),
        sorted_keys(m@.dom()).len() == m@.dom().len(),
{
    lemma_u32_key_order();
    let s = spec_keys_iter(m).remaining();
    lemma_increasing_u32(s);
    assert(s.unref().to_set() == m@.dom());
    lemma_sorted_keys_of(s.unref());
}

/// Process ids of a map, in ascending order.
fn collect_keys<V>(m: &BTreeMap<u32, V>) -> (v: Vec<u32>)
    ensures
        v@ == sorted_keys(m@.dom()),
{
    proof {
        lemma_u32_key_order();
    }
    let mut v: Vec<u32> = Vec::new();
    for k in it: m.keys()
        invariant
            v@ == spec_keys_iter(m).remaining().take(it.index()).unref(),
    {
        v.push(*k);
        assert(v@ =~= spec_keys_iter(m).remaining().take(it.index() + 1).unref());
    }
    assert(v@ =~= spec_keys_iter(m).remaining().unref());
    proof {
        lemma_increasing_u32(spec_keys_iter(m).remaining());
        lemma_sorted_keys_of(v@);
    }
    v
}

/// In an ascending sequence, the position of an element is the only one that holds it.
proof fn lemma_index_of_unique(s: Seq<u32>, i: int)
    requires
        strictly_increasing(s),
        0 <= i < s.len(),
    ensures
        s.index_of(s[i]) == i,
{
    assert(s.contains(s[i]));
    let j = s.index_of(s[i]);
    assert(0 <= j < s.len() && s[j] == s[i]);
}

/// Wrapping one step back from a selection, without computing past the count.
proof fn lemma_step_back(c: int, s: int)
    requires
        0 <= s < c,
    ensures
        ((c + s) - 1) % c == if s == 0 { c - 1 } else { s - 1 },
{
    if s == 0 {
        vstd::arithmetic::div_mod::lemma_small_mod((c - 1) as nat, c as nat);
    } else {
        vstd::arithmetic::div_mod::lemma_mod_add_multiples_vanish(s - 1, c);
        vstd::arithmetic::div_mod::lemma_small_mod((s - 1) as nat, c as nat);
    }
}

impl MixerManager {
    /// An empty mixer.
    pub fn new() -> (r: Self)
        ensures
            r@ == (MixerView { apps: Map::empty(), count: 0, selected: 0 }),
            r@.well_formed(),
    {
        let r = MixerManager { apps: BTreeMap::new(), count: 0, selected_index: 0 };
        proof {
            lemma_btree_keys(&r.apps);
        }
        r
    }

    /// How many applications the mixer counts.
    pub fn count(&self) -> (c: usize)
        ensures
            c == self@.count,
    {
        self.count
    }

    /// Whether `audio_update` can take the message (see `MixerView::accepts`).
    pub fn accepts(&self, message: &AudioMsg) -> (r: bool)
        requires
            self@.well_formed(),
        ensures
            r == self@.accepts(*message),
    {
        proof {
            lemma_u32_key_order();
        }
        match message {
            AudioMsg::AppOpened { pid, .. } => !self.apps.contains_key(pid),
            AudioMsg::VolumeChanged { .. } => true,
            AudioMsg::AppClosed { pid } => self.apps.contains_key(pid),
        }
    }

    /// Called when the user spins the navigation knob.
    pub fn scroll(&mut self, is_up: bool)
        requires
            old(self)@.well_formed(),
            old(self)@.count > 0,
        ensures
            final(self)@ == old(self)@.scrolled(is_up),
            final(self)@.well_formed(),
    {
        proof {
            lemma_step_back(self.count as int, self.selected_index as int);
            vstd::arithmetic::div_mod::lemma_mod_bound(
                (self.selected_index + 1) as int,
                self.count as int,
            );
        }
        if is_up {
            self.selected_index = (self.selected_index + 1) % self.count;
        } else if self.selected_index == 0 {
            self.selected_index = self.count - 1;
        } else {
            self.selected_index = self.selected_index - 1;
        }
    }

    /// Applies an audio message: a new application is added (and selected
    /// when `select_new_app` is set), a volume change updates a tracked
    /// application, a closed application is removed and the selection kept in range.
    pub fn audio_update(&mut self, message: AudioMsg, select_new_app: bool)
        requires
            old(self)@.well_formed(),
            old(self)@.accepts(message),
        ensures
            final(self)@ == old(self)@.updated(message, select_new_app),
            final(self)@.well_formed(),
    {
        proof {
            lemma_btree_keys(&self.apps);
        }
        match message {
            AudioMsg::AppOpened { pid, name, volume, muted } => {
                self.apps.insert(pid, VolumeStatus { name, volume, muted });
                proof {
                    lemma_btree_keys(&self.apps);
                    assert(self.apps@.dom() =~= old(self).apps@.dom().insert(pid));
                    // the map's length is a `usize`, so the count after the insertion is one too
                    assert(vstd::std_specs::btree::spec_btree_map_len(&self.apps) == self.apps@.len());
                }
                self.count = self.count + 1;
                if select_new_app {
                    let keys = collect_keys(&self.apps);
                    let mut i: usize = 0;
                    assert(keys@.to_set().contains(pid));
                    while i < keys.len() && keys[i] != pid
                        invariant
                            i <= keys.len(),
                            keys@ == sorted_keys(self.apps@.dom()),
                            keys@.contains(pid),
                            forall|j: int| 0 <= j < i ==> keys@[j] != pid,
                        decreases keys.len() - i,
                    {
                        i = i + 1;
                    }
                    proof {
                        lemma_index_of_unique(keys@, i as int);
                    }
                    self.selected_index = i;
                }
            },
            AudioMsg::VolumeChanged { pid, volume, muted } => {
                match self.apps.get(&pid) {
                    Some(status) => {
                        let name = status.name.clone();
                        self.apps.insert(pid, VolumeStatus { volume, muted, name });
                        proof {
                            assert(self.apps@.dom() =~= old(self).apps@.dom());
                        }
                    },
                    None => {},
                }
            },
            AudioMsg::AppClosed { pid } => {
                let _ = self.apps.remove(&pid);
                self.count = self.count - 1;
                proof {
                    lemma_btree_keys(&self.apps);
                    assert(self.apps@.dom() =~= old(self).apps@.dom().remove(pid));
                }
                if self.selected_index >= self.apps.len() && self.selected_index > 0 {
                    self.selected_index = self.selected_index - 1;
                }
            },
        }
    }

    /// The display frame: previous, selected and next application.
    pub fn frame(&self) -> (f: DisplayFrame)
        requires
            self@.well_formed(),
        ensures
            f@ == seq![entry_bytes(self@.shown().0), entry_bytes(self@.shown().1), entry_bytes(self@.shown().2)],
    {
        if self.count == 0 {
            return DisplayFrame::new(None, None, None);
        }
        let keys = collect_keys(&self.apps);
        proof {
            lemma_btree_keys(&self.apps);
            assert(keys@.contains(keys@[self.selected_index as int]));
        }
        let selected_key = keys[self.selected_index];
        if self.count == 1 {
            return DisplayFrame::new(None, self.apps.get(&selected_key), None);
        }
        if self.count == 2 {
            if self.selected_index == 0 {
                assert(keys@.contains(keys@[1]));
                return DisplayFrame::new(None, self.apps.get(&selected_key), self.apps.get(&keys[1]));
            } else {
                assert(keys@.contains(keys@[0]));
                return DisplayFrame::new(self.apps.get(&keys[0]), self.apps.get(&selected_key), None);
            }
        }
        let next_pos = (self.selected_index + 1) % self.count;
        let prev_pos = if self.selected_index == 0 { self.count - 1 } else { self.selected_index - 1 };
        proof {
            lemma_step_back(self.count as int, self.selected_index as int);
            vstd::arithmetic::div_mod::lemma_mod_bound(
                (self.selected_index + 1) as int,
                self.count as int,
            );
            assert(keys@.contains(keys@[next_pos as int]));
            assert(keys@.contains(keys@[prev_pos as int]));
        }
        let next_key = keys[next_pos];
        let prev_key = keys[prev_pos];
        DisplayFrame::new(self.apps.get(&prev_key), self.apps.get(&selected_key), self.apps.get(&next_key))
    }
}

impl MixerManager {
    /// The coordinator's answer to an audio message: update the mixer, then
    /// send the new frame.
    pub fn handle_audio(&mut self, message: AudioMsg, select_new_app: bool) -> (p: FramePacket)
        requires
            old(self)@.well_formed(),
            old(self)@.accepts(message),
        ensures
            final(self)@ == old(self)@.updated(message, select_new_app),
            final(self)@.well_formed(),
            p.0@ == frame_bytes(final(self)@.shown()),
    {
        self.audio_update(message, select_new_app);
        self.frame().to_bytes()
    }

    /// The coordinator's answer to a command from the microcontroller: the
    /// navigation knob (its direction flipped when `invert_volume` is set)
    /// moves the selection and a new frame is sent; the other commands
    /// change nothing.
    pub fn handle_control(&mut self, command: ControlMsg, invert_volume: bool) -> (p: Option<
        FramePacket,
    >)
        requires
            old(self)@.well_formed(),
            command is AppScroll ==> old(self)@.count > 0,
        ensures
            final(self)@.well_formed(),
            match command {
                ControlMsg::AppScroll { up } => {
                    &&& final(self)@ == old(self)@.scrolled(if invert_volume { !up } else { up })
                    &&& p matches Some(packet) && packet.0@ == frame_bytes(final(self)@.shown())
                },
                _ => final(self)@ == old(self)@ && p is None,
            },
    {
        match command {
            ControlMsg::AppScroll { up } => {
                let is_up = if invert_volume { !up } else { up };
                self.scroll(is_up);
                Some(self.frame().to_bytes())
            },
            ControlMsg::VolumeScroll { up } => None,
            ControlMsg::MuteToggle => None,
        }
    }
}

/// Turning the navigation knob one step and back again returns to the same
/// selection.
pub proof fn law_scroll_round_trip(v: MixerView, is_up: bool)
    requires
        v.well_formed(),
        v.count > 0,
    ensures
        v.scrolled(is_up).scrolled(!is_up) == v,
{
    let c = v.count as int;
    let s = v.selected as int;
    lemma_step_back(c, s);
    vstd::arithmetic::div_mod::lemma_mod_bound(s + 1, c);
    if s + 1 < c {
        vstd::arithmetic::div_mod::lemma_small_mod((s + 1) as nat, c as nat);
    } else {
        vstd::arithmetic::div_mod::lemma_mod_self_0(c);
    }
    let t = if s == 0 { c - 1 } else { s - 1 };
    lemma_step_back(c, (s + 1) % c);
    if t + 1 < c {
        vstd::arithmetic::div_mod::lemma_small_mod((t + 1) as nat, c as nat);
    } else {
        vstd::arithmetic::div_mod::lemma_mod_self_0(c);
    }
}

/// The mixer after `n` steps of the navigation knob in one direction.
pub open spec fn scrolled_times(v: MixerView, is_up: bool, n: nat) -> MixerView
    decreases n,
{
    if n == 0 {
        v
    } else {
        scrolled_times(v, is_up, (n - 1) as nat).scrolled(is_up)
    }
}

/// After `n` steps up the selection has moved `n` places forward, wrapping.
proof fn lemma_scrolled_up_times(v: MixerView, n: nat)
    requires
        v.well_formed(),
        v.count > 0,
    ensures
        scrolled_times(v, true, n).selected == ((v.selected + n) as int) % (v.count as int),
        scrolled_times(v, true, n).apps == v.apps,
        scrolled_times(v, true, n).count == v.count,
    decreases n,
{
    let c = v.count as int;
    if n == 0 {
        vstd::arithmetic::div_mod::lemma_small_mod(v.selected, v.count);
    } else {
        lemma_scrolled_up_times(v, (n - 1) as nat);
        vstd::arithmetic::div_mod::lemma_add_mod_noop_right(1, v.selected + n - 1, c);
    }
}

/// After `n` steps down the selection has moved `n` places back, wrapping.
proof fn lemma_scrolled_down_times(v: MixerView, n: nat)
    requires
        v.well_formed(),
        v.count > 0,
    ensures
        scrolled_times(v, false, n).selected == (v.selected - n) % (v.count as int),
        scrolled_times(v, false, n).apps == v.apps,
        scrolled_times(v, false, n).count == v.count,
    decreases n,
{
    let c = v.count as int;
    if n == 0 {
        vstd::arithmetic::div_mod::lemma_small_mod(v.selected, v.count);
    } else {
        lemma_scrolled_down_times(v, (n - 1) as nat);
        vstd::arithmetic::div_mod::lemma_add_mod_noop_right(c - 1, v.selected - (n - 1), c);
        vstd::arithmetic::div_mod::lemma_mod_add_multiples_vanish(v.selected - n, c);
    }
}

/// A full turn of the navigation knob, as many steps in one direction as
/// there are applications, comes back to the same selection.
pub proof fn law_full_turn(v: MixerView, is_up: bool)
    requires
        v.well_formed(),
        v.count > 0,
    ensures
        scrolled_times(v, is_up, v.count) == v,
{
    if is_up {
        lemma_scrolled_up_times(v, v.count);
        vstd::arithmetic::div_mod::lemma_mod_add_multiples_vanish(v.selected as int, v.count as int);
    } else {
        lemma_scrolled_down_times(v, v.count);
        vstd::arithmetic::div_mod::lemma_mod_sub_multiples_vanish(v.selected as int, v.count as int);
    }
    vstd::arithmetic::div_mod::lemma_small_mod(v.selected, v.count);
}

/// A newly opened application becomes the selected one when the settings ask
/// for it, and the mixer stays well formed.
pub proof fn law_new_app_selected(
    v: MixerView,
    pid: u32,
    name: String,
    volume: u8,
    muted: bool,
)
    requires
        v.well_formed(),
        v.accepts(AudioMsg::AppOpened { pid, name, volume, muted }),
    ensures
        ({
            let w = v.updated(AudioMsg::AppOpened { pid, name, volume, muted }, true);
            &&& w.well_formed()
            &&& w.selected_pid() == pid
            &&& w.apps[pid] == (VolumeStatus { volume, muted, name })
        }),
{
    let w = v.updated(AudioMsg::AppOpened { pid, name, volume, muted }, true);
    let dom = v.apps.dom().insert(pid);
    assert(w.apps.dom() =~= dom);
    lemma_sorted_keys_exist(dom);
    let k = sorted_keys(dom);
    assert(k.to_set().contains(pid));
    assert(k.contains(pid));
    let i = k.index_of(pid);
    assert(0 <= i < k.len() && k[i] == pid);
    lemma_sorted_keys_exist(v.apps.dom());
}

/// A volume change moves nothing: the same applications in the same order,
/// the same selection; only the changed application's volume and mute flag
/// differ, and its name stays.
pub proof fn law_volume_change_keeps_selection(v: MixerView, pid: u32, volume: u8, muted: bool)
    requires
        v.well_formed(),
    ensures
        ({
            let w = v.updated(AudioMsg::VolumeChanged { pid, volume, muted }, false);
            &&& w.keys() == v.keys()
            &&& w.count == v.count
            &&& w.selected == v.selected
            &&& w.selected_pid() == v.selected_pid()
            &&& v.apps.contains_key(pid) ==> w.apps[pid] == (VolumeStatus {
                volume,
                muted,
                name: v.apps[pid].name,
            })
            &&& forall|q: u32| q != pid ==> w.apps.contains_key(q) == v.apps.contains_key(q) && (
            v.apps.contains_key(q) ==> w.apps[q] == v.apps[q])
        }),
{
    let w = v.updated(AudioMsg::VolumeChanged { pid, volume, muted }, false);
    if v.apps.contains_key(pid) {
        assert(w.apps.dom() =~= v.apps.dom());
    }
}

/// The ascending keys without one of them are the ascending keys of the
/// other elements.
proof fn lemma_keys_remove(dom: Set<u32>, j: int)
    requires
        dom.finite(),
        0 <= j < sorted_keys(dom).len(),
    ensures
        sorted_keys(dom.remove(sorted_keys(dom)[j])) == sorted_keys(dom).remove(j),
{
    lemma_sorted_keys_exist(dom);
    let k = sorted_keys(dom);
    let pid = k[j];
    let r = k.remove(j);
    assert forall|a: int, b: int| 0 <= a < b < r.len() implies r[a] < r[b] by {
        if a < j && b >= j {
            assert(r[b] == k[b + 1]);
        } else if a >= j {
            assert(r[a] == k[a + 1] && r[b] == k[b + 1]);
        }
    }
    assert forall|x: u32| r.to_set().contains(x) <==> dom.remove(pid).contains(x) by {
        if r.to_set().contains(x) {
            let i = choose|i: int| 0 <= i < r.len() && r[i] == x;
            let i2 = if i < j { i } else { i + 1 };
            assert(k[i2] == x);
            assert(k.to_set().contains(x));
            assert(i2 != j);
            assert(x != pid);
        }
        if dom.remove(pid).contains(x) {
            assert(k.to_set().contains(x));
            let i = choose|i: int| 0 <= i < k.len() && k[i] == x;
            assert(i != j);
            let i2 = if i < j { i } else { i - 1 };
            assert(r[i2] == x);
            assert(r.contains(x));
        }
    }
    assert(r.to_set() =~= dom.remove(pid));
    crate::keys::lemma_sorted_keys_of(r);
}

/// Closing an application while the selection is not at the last position
/// that remains leaves the selected position alone; closing an application
/// that comes after the selected one keeps the same application selected.
pub proof fn law_close_keeps_selection(v: MixerView, pid: u32, select_new_app: bool)
    requires
        v.well_formed(),
        v.apps.contains_key(pid),
        v.selected + 1 < v.count,
    ensures
        ({
            let w = v.updated(AudioMsg::AppClosed { pid }, select_new_app);
            &&& w.selected == v.selected
            &&& w.count + 1 == v.count
            &&& pid > v.selected_pid() ==> w.selected_pid() == v.selected_pid()
        }),
{
    let w = v.updated(AudioMsg::AppClosed { pid }, select_new_app);
    let k = v.keys();
    assert(k.to_set().contains(pid));
    let j = choose|j: int| 0 <= j < k.len() && k[j] == pid;
    assert(w.apps.dom() =~= v.apps.dom().remove(pid));
    lemma_keys_remove(v.apps.dom(), j);
    lemma_sorted_keys_exist(w.apps.dom());
    assert(w.apps.dom().len() == v.count - 1);
    if pid > v.selected_pid() {
        assert(j > v.selected);
        assert(w.keys() == k.remove(j));
        assert(w.keys()[v.selected as int] == k[v.selected as int]);
    }
}

/// Closing the only application leaves an empty mixer, selection at the start,
/// which shows an empty frame.
pub proof fn law_close_last_app(v: MixerView, pid: u32, select_new_app: bool)
    requires
        v.well_formed(),
        v.count == 1,
        v.apps.contains_key(pid),
    ensures
        ({
            let w = v.updated(AudioMsg::AppClosed { pid }, select_new_app);
            &&& w.apps == Map::<u32, VolumeStatus>::empty()
            &&& w.count == 0
            &&& w.selected == 0
            &&& w.shown() == (None::<VolumeStatus>, None::<VolumeStatus>, None::<VolumeStatus>)
        }),
{
    let w = v.updated(AudioMsg::AppClosed { pid }, select_new_app);
    lemma_sorted_keys_exist(v.apps.dom());
    vstd::set_lib::lemma_set_empty_equivalency_len(w.apps.dom());
    assert(w.apps.dom().len() == 0);
    assert(w.apps =~= Map::<u32, VolumeStatus>::empty());
}

/// The selected application is always the middle entry of the frame.
pub proof fn law_frame_shows_selection(v: MixerView)
    requires
        v.well_formed(),
        v.count > 0,
    ensures
        v.shown().1 == Some(v.apps[v.selected_pid()]),
{
}

/// With three or more applications, the entry shown as next becomes the
/// selected one after a step up, and the entry shown as previous after a step
/// down.
pub proof fn law_scroll_follows_frame(v: MixerView)
    requires
        v.well_formed(),
        v.count >= 3,
    ensures
        v.scrolled(true).shown().1 == v.shown().2,
        v.scrolled(false).shown().1 == v.shown().0,
{
}

/// One of the three entries of a frame.
pub struct FrameEntry {
    pub volume: u8,
    pub muted: u8,
    pub name: [u8; MAX_NAME_LEN],
}

impl View for FrameEntry {
    type V = Seq<u8>;

    open spec fn view(&self) -> Seq<u8> {
        seq![self.volume, self.muted] + self.name@
    }
}

impl FrameEntry {
    /// The entry of an application, or an empty entry.
    pub fn new(status: Option<&VolumeStatus>) -> (e: Self)
        ensures
            e@ == entry_bytes(
                match status {
                    Some(s) => Some(*s),
                    None => None,
                },
            ),
    {
        let mut name_bytes = [0u8; MAX_NAME_LEN];
        match status {
            Some(status) => {
                let bytes = status.name.as_str().as_bytes();
                let len = if bytes.len() < MAX_NAME_LEN - 1 { bytes.len() } else { MAX_NAME_LEN - 1 };
                let ghost b = encode_utf8(status.name@);
                assert(bytes@ == b);
                for i in 0..len
                    invariant
                        len <= bytes@.len(),
                        len < MAX_NAME_LEN,
                        bytes@ == b,
                        forall|j: int| 0 <= j < i ==> name_bytes@[j] == b[j],
                        forall|j: int| i <= j < MAX_NAME_LEN ==> name_bytes@[j] == 0u8,
                {
                    name_bytes[i] = bytes[i];
                }
                let e = FrameEntry {
                    volume: status.volume,
                    muted: if status.muted { 1u8 } else { 0u8 },
                    name: name_bytes,
                };
                assert(name_bytes@ =~= name_field(status.name@));
                assert(e@ =~= entry_bytes(Some(*status)));
                e
            },
            None => {
                let e = FrameEntry { volume: 0, muted: 0, name: name_bytes };
                assert(e@ =~= entry_bytes(None));
                e
            },
        }
    }
}

/// All the information needed to send a frame to the microcontroller.
pub struct DisplayFrame {
    entries: [FrameEntry; 3],
}

impl View for DisplayFrame {
    type V = Seq<Seq<u8>>;

    closed spec fn view(&self) -> Seq<Seq<u8>> {
        seq![self.entries@[0]@, self.entries@[1]@, self.entries@[2]@]
    }
}

/// The bytes of a frame packet made of three entries: header, then the
/// previous, selected and next entry.
pub open spec fn packet_bytes(entries: Seq<Seq<u8>>) -> Seq<u8> {
    seq![FRAME_HEADER] + entries[0] + entries[1] + entries[2]
}

/// A frame has three entries of `ENTRY_SIZE` bytes each.
pub proof fn lemma_frame_shape(f: DisplayFrame)
    ensures
        f@.len() == 3,
        forall|i: int| 0 <= i < 3 ==> #[trigger] f@[i].len() == ENTRY_SIZE,
{
}

/// The bytes of an entry give back its volume, mute flag and name.
pub proof fn law_entry_bytes_decode(e: FrameEntry)
    ensures
        e@.len() == ENTRY_SIZE,
        e@[0] == e.volume,
        e@[1] == e.muted,
        e@.subrange(2, ENTRY_SIZE as int) == e.name@,
{
    assert(e@.subrange(2, ENTRY_SIZE as int) =~= e.name@);
}

/// Two entries with the same bytes are the same entry.
pub proof fn law_entry_bytes_injective(e: FrameEntry, d: FrameEntry)
    ensures
        e@ == d@ <==> (e.volume == d.volume && e.muted == d.muted && e.name == d.name),
{
    if e@ == d@ {
        law_entry_bytes_decode(e);
        law_entry_bytes_decode(d);
        assert(e.name@ =~= d.name@);
        vstd::array::axiom_array_ext_equal(e.name, d.name);
        assert(e.name =~= d.name);
    }
}

/// A frame packet decodes back to its entries: the header, then entry `i` at
/// bytes `1 + 22 i` up to `1 + 22 (i + 1)`.
pub proof fn law_frame_bytes_decode(f: DisplayFrame)
    ensures
        packet_bytes(f@).len() == FRAME_SIZE,
        packet_bytes(f@)[0] == FRAME_HEADER,
        forall|i: int|
            0 <= i < 3 ==> packet_bytes(f@).subrange(1 + i * ENTRY_SIZE, 1 + (i + 1) * ENTRY_SIZE)
                == #[trigger] f@[i],
{
    lemma_frame_shape(f);
    let b = packet_bytes(f@);
    assert(b.subrange(1, 23) =~= f@[0]);
    assert(b.subrange(23, 45) =~= f@[1]);
    assert(b.subrange(45, 67) =~= f@[2]);
}

/// Two frames give the same packet exactly when they have the same entries.
pub proof fn law_frame_bytes_injective(f: DisplayFrame, g: DisplayFrame)
    ensures
        packet_bytes(f@) == packet_bytes(g@) <==> f@ == g@,
{
    law_frame_bytes_decode(f);
    law_frame_bytes_decode(g);
    if packet_bytes(f@) == packet_bytes(g@) {
        assert(f@[0] == packet_bytes(g@).subrange(1, 23));
        assert(f@[1] == packet_bytes(g@).subrange(23, 45));
        assert(f@[2] == packet_bytes(g@).subrange(45, 67));
        assert(f@ =~= g@);
    }
}

/// The packet that the coordinator sends after a message (`handle_audio`,
/// `handle_control`) is the one that `frame` and then `to_bytes` give for the
/// new state: the packet of the frame's three entries.
pub proof fn law_sent_packet_is_frame(v: MixerView)
    ensures
        frame_bytes(v.shown()) == packet_bytes(
            seq![entry_bytes(v.shown().0), entry_bytes(v.shown().1), entry_bytes(v.shown().2)],
        ),
{
    let e = seq![entry_bytes(v.shown().0), entry_bytes(v.shown().1), entry_bytes(v.shown().2)];
    assert(e[0] == entry_bytes(v.shown().0));
    assert(e[1] == entry_bytes(v.shown().1));
    assert(e[2] == entry_bytes(v.shown().2));
}

impl DisplayFrame {
    /// A frame from the previous, current and next application. An empty
    /// current slot is only meaningful when there are no applications at all.
    pub fn new(
        prev: Option<&VolumeStatus>,
        curr: Option<&VolumeStatus>,
        next: Option<&VolumeStatus>,
    ) -> (f: Self)
        requires
            curr.is_some() || (prev.is_none() && next.is_none()),
        ensures
            f@ == seq![
                entry_bytes(match prev { Some(s) => Some(*s), None => None }),
                entry_bytes(match curr { Some(s) => Some(*s), None => None }),
                entry_bytes(match next { Some(s) => Some(*s), None => None }),
            ],
    {
        DisplayFrame { entries: [FrameEntry::new(prev), FrameEntry::new(curr), FrameEntry::new(next)] }
    }

    /// The bytes sent to the microcontroller: header, then the three entries.
    pub fn to_bytes(&self) -> (p: FramePacket)
        ensures
            p.0@ == packet_bytes(self@),
    {
        let mut bytes = [0u8; FRAME_SIZE];
        bytes[0] = FRAME_HEADER;
        let ghost target = seq![FRAME_HEADER] + self@[0] + self@[1] + self@[2];
        for i in 0..3
            invariant
                target == seq![FRAME_HEADER] + self@[0] + self@[1] + self@[2],
                bytes@.len() == FRAME_SIZE,
                forall|j: int| 0 <= j < 1 + i * ENTRY_SIZE ==> bytes@[j] == target[j],
        {
            let entry = &self.entries[i];
            let start = 1 + (i * ENTRY_SIZE);
            assert(entry@ == self@[i as int]);
            bytes[start] = entry.volume;
            bytes[start + 1] = entry.muted;
            let name_start = start + 2;
            for k in 0..MAX_NAME_LEN
                invariant
                    target == seq![FRAME_HEADER] + self@[0] + self@[1] + self@[2],
                    bytes@.len() == FRAME_SIZE,
                    start == 1 + i * ENTRY_SIZE,
                    name_start == start + 2,
                    i < 3,
                    entry@ == self@[i as int],
                    forall|j: int| 0 <= j < start ==> bytes@[j] == target[j],
                    bytes@[start as int] == entry.volume,
                    bytes@[start + 1] == entry.muted,
                    forall|j: int| 0 <= j < k ==> bytes@[name_start + j] == entry.name@[j],
            {
                bytes[name_start + k] = entry.name[k];
            }
            assert forall|j: int| 0 <= j < 1 + (i + 1) * ENTRY_SIZE implies bytes@[j] == target[j] by {
                if j >= start {
                    assert(target[j] == self@[i as int][j - start]);
                }
            }
        }
        assert(bytes@ =~= target);
        FramePacket(bytes)
    }
}

} // verus!
