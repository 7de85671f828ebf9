//! The editing session: the loaded buffer, its structured profile, the
//! derived counts and flag mirrors, and the mailbox for background I/O.
use crate::equipment::{flag, switched, EQUIPMENT_KINDS};
use crate::profile::{
    encodes, has_magic, item_at, profile_of, valid_profile, weapon_at, Equipment, FormatError,
    GameProfile, Position, Profile, ProfileModel, Weapon, EMPTY_SLOT, INVENTORY_SLOTS,
    TELEPORTER_SLOTS, WEAPON_SLOTS,
};
use crate::slots::{
    count_active_items, count_active_weapons, is_active_count, lemma_active_count_unique,
    lemma_all_empty, lemma_empty_last, lemma_fill_next, lemma_replace_active,
    lemma_weapon_classes_update, prefix_active, weapon_classes,
};
use crate::storage::{delivered, dispatched, drained, latest, IoTask, Storage, StorageModel};
use vstd::prelude::*;

verus! {

pub struct MainApp {
    storage: Storage,
    profile: Option<(Profile, GameProfile)>,
    weapon_num: usize,
    inventory_num: usize,
    equip_checked: [bool; 9],
}

/// Mathematical model of a `MainApp`.
pub struct EditorModel {
    /// The loaded buffer and the profile being edited, if a file is loaded.
    pub loaded: Option<(Seq<u8>, ProfileModel)>,
    pub weapon_num: int,
    pub inventory_num: int,
    pub equip_checked: Seq<bool>,
    pub storage: StorageModel,
}

impl View for MainApp {
    type V = EditorModel;

    closed spec fn view(&self) -> EditorModel {
        EditorModel {
            loaded: match self.profile {
                Some((raw, gp)) => Some((raw@, gp@)),
                None => None,
            },
            weapon_num: self.weapon_num as int,
            inventory_num: self.inventory_num as int,
            equip_checked: self.equip_checked@,
            storage: self.storage@,
        }
    }
}

/// The slot sequences have the layout's capacities.
pub open spec fn shaped(p: ProfileModel) -> bool {
    &&& p.weapon.len() == WEAPON_SLOTS
    &&& p.inventory.len() == INVENTORY_SLOTS
    &&& p.teleporter.len() == TELEPORTER_SLOTS
}

/// The counts and checkbox mirrors agree with the slots and flags of `p`.
pub open spec fn derived_from(
    p: ProfileModel,
    weapon_num: int,
    inventory_num: int,
    equip_checked: Seq<bool>,
) -> bool {
    &&& is_active_count(weapon_classes(p.weapon), weapon_num)
    &&& is_active_count(p.inventory, inventory_num)
    &&& equip_checked.len() == EQUIPMENT_KINDS
    &&& forall|k: int|
        0 <= k < EQUIPMENT_KINDS ==> #[trigger] equip_checked[k] == flag(p.equipment.bits, k as u32)
}

pub open spec fn editor_wf(m: EditorModel) -> bool {
    &&& m.equip_checked.len() == EQUIPMENT_KINDS
    &&& match m.loaded {
        Some((raw, p)) => valid_profile(raw) && shaped(p) && derived_from(
            p,
            m.weapon_num,
            m.inventory_num,
            m.equip_checked,
        ),
        None => m.weapon_num == 0 && m.inventory_num == 0,
    }
}

/// The error a rejected buffer gives.
pub open spec fn load_error(b: Seq<u8>) -> FormatError {
    if !has_magic(b) {
        FormatError::BadMagic
    } else {
        FormatError::Truncated
    }
}

/// `m` with `f` applied to the loaded profile, if there is one.
pub open spec fn map_profile(m: EditorModel, f: spec_fn(ProfileModel) -> ProfileModel) -> EditorModel {
    match m.loaded {
        Some((raw, p)) => EditorModel { loaded: Some((raw, f(p))), ..m },
        None => m,
    }
}

/// The profile being edited; meaningful when one is loaded.
pub open spec fn current(m: EditorModel) -> ProfileModel {
    m.loaded->Some_0.1
}

/// The bytes of the newest delivered result; meaningful when there is one.
pub open spec fn newest(m: EditorModel) -> Seq<u8> {
    latest(m.storage)->Some_0@
}

/// `m`'s buffer paired with the profile `p`.
pub open spec fn edited(m: EditorModel, p: ProfileModel) -> Option<(Seq<u8>, ProfileModel)> {
    Some((m.loaded->Some_0.0, p))
}

pub open spec fn empty_weapon() -> Weapon {
    Weapon { classification: EMPTY_SLOT, level: 0, exp: 0, max_ammo: 0, ammo: 0 }
}

pub open spec fn with_weapon(p: ProfileModel, i: int, w: Weapon) -> ProfileModel {
    ProfileModel { weapon: p.weapon.update(i, w), ..p }
}

pub open spec fn with_item(p: ProfileModel, i: int, item: i32) -> ProfileModel {
    ProfileModel { inventory: p.inventory.update(i, item), ..p }
}

/// `p` with every weapon slot emptied.
pub open spec fn without_weapons(p: ProfileModel) -> ProfileModel {
    ProfileModel { weapon: Seq::new(p.weapon.len(), |i: int| empty_weapon()), ..p }
}

/// `p` with every inventory slot emptied.
pub open spec fn without_items(p: ProfileModel) -> ProfileModel {
    ProfileModel { inventory: Seq::new(p.inventory.len(), |i: int| EMPTY_SLOT), ..p }
}

/// Weapon and inventory slots both have no gap.
pub open spec fn gap_free(p: ProfileModel) -> bool {
    prefix_active(weapon_classes(p.weapon)) && prefix_active(p.inventory)
}

/// With `n` the active count, no gap means every later slot is empty.
pub proof fn lemma_gap_free_iff_tail_empty(s: Seq<i32>, n: int)
    requires
        is_active_count(s, n),
    ensures
        prefix_active(s) <==> forall|i: int| n <= i < s.len() ==> s[i] == EMPTY_SLOT,
{
    if prefix_active(s) {
        assert forall|i: int| n <= i < s.len() implies s[i] == EMPTY_SLOT by {
            assert(s[n] == EMPTY_SLOT);
        }
    }
    if forall|i: int| n <= i < s.len() ==> s[i] == EMPTY_SLOT {
        assert forall|i: int, j: int|
            0 <= i <= j < s.len() && #[trigger] s[i] == EMPTY_SLOT implies #[trigger] s[j]
            == EMPTY_SLOT by {
            if i < n {
                assert(s[i] != EMPTY_SLOT);
            }
        }
    }
}

impl Default for MainApp {
    fn default() -> (r: MainApp)
        ensures
            r.wf(),
            r@.loaded is None,
            r@.storage.inbox.len() == 0,
            r@.storage.tasks.len() == 0,
    {
        MainApp::new()
    }
}

impl MainApp {
    /// A session with nothing loaded and no pending I/O.
    pub fn new() -> (r: MainApp)
        ensures
            r.wf(),
            r@.loaded is None,
            r@.storage.inbox.len() == 0,
            r@.storage.tasks.len() == 0,
    {
        MainApp {
            storage: Storage::new(),
            profile: None,
            weapon_num: 0,
            inventory_num: 0,
            equip_checked: [false; 9],
        }
    }

    pub open spec fn wf(&self) -> bool {
        editor_wf(self@)
    }

    /// Occupied weapon slots before the first empty one.
    pub fn count_weapon(&self) -> (r: Option<usize>)
        ensures
            self@.loaded is None ==> r is None,
            self@.loaded is Some ==> (r matches Some(n) && is_active_count(
                weapon_classes(current(self@).weapon),
                n as int,
            )),
    {
        match &self.profile {
            Some((_, gp)) => Some(count_active_weapons(&gp.weapon)),
            None => None,
        }
    }

    /// Occupied inventory slots before the first empty one.
    pub fn count_inventory(&self) -> (r: Option<usize>)
        ensures
            self@.loaded is None ==> r is None,
            self@.loaded is Some ==> (r matches Some(n) && is_active_count(
                current(self@).inventory,
                n as int,
            )),
    {
        match &self.profile {
            Some((_, gp)) => Some(count_active_items(&gp.inventory)),
            None => None,
        }
    }

    /// One checkbox state per equipment kind.
    pub fn detect_equip(&self) -> (r: Option<[bool; 9]>)
        ensures
            self@.loaded is None ==> r is None,
            self@.loaded is Some ==> (r matches Some(e) && forall|k: int|
                0 <= k < EQUIPMENT_KINDS ==> #[trigger] e@[k] == flag(
                    current(self@).equipment.bits,
                    k as u32,
                )),
    {
        match &self.profile {
            Some((_, gp)) => {
                let mut checked = [false; 9];
                let mut k: usize = 0;
                while k < EQUIPMENT_KINDS
                    invariant
                        k <= EQUIPMENT_KINDS,
                        checked@.len() == EQUIPMENT_KINDS,
                        forall|j: int| 0 <= j < k ==> #[trigger] checked@[j] == flag(
                            gp.equipment.bits,
                            j as u32,
                        ),
                    decreases EQUIPMENT_KINDS - k,
                {
                    checked[k] = gp.equipment.check(k as u32);
                    k = k + 1;
                }
                Some(checked)
            },
            None => None,
        }
    }

    /// Recomputes the counts and checkbox mirrors from the loaded profile;
    /// `None` when nothing is loaded.
    pub fn update_state(&mut self) -> (r: Option<()>)
        requires
            old(self)@.equip_checked.len() == EQUIPMENT_KINDS,
        ensures
            r is Some <==> old(self)@.loaded is Some,
            final(self)@.loaded == old(self)@.loaded,
            final(self)@.storage == old(self)@.storage,
            final(self)@.equip_checked.len() == EQUIPMENT_KINDS,
            old(self)@.loaded is None ==> final(self)@ == old(self)@,
            old(self)@.loaded is Some ==> derived_from(
                current(old(self)@),
                final(self)@.weapon_num,
                final(self)@.inventory_num,
                final(self)@.equip_checked,
            ),
    {
        let w = match self.count_weapon() {
            Some(n) => n,
            None => return None,
        };
        let i = match self.count_inventory() {
            Some(n) => n,
            None => return None,
        };
        let e = match self.detect_equip() {
            Some(e) => e,
            None => return None,
        };
        self.weapon_num = w;
        self.inventory_num = i;
        self.equip_checked = e;
        Some(())
    }

    /// Loads a raw save file. On success the buffer and its decoded profile
    /// replace whatever was loaded; on failure the session keeps its state
    /// and a notice of the error is queued for the user.
    pub fn verify_and_init(&mut self, data: Vec<u8>) -> (r: Result<(), FormatError>)
        requires
            old(self).wf(),
        ensures
            final(self).wf(),
            r is Ok <==> valid_profile(data@),
            r is Ok ==> final(self)@.loaded == Some((data@, profile_of(data@))) && final(self)@.storage
                == old(self)@.storage,
            r matches Err(e) ==> e == load_error(data@) && final(self)@ == (EditorModel {
                storage: dispatched(old(self)@.storage, IoTask::Notify(e)),
                ..old(self)@
            }),
    {
        match Profile::from_raw(data) {
            Ok(profile) => {
                let game_profile = GameProfile::dump(&profile);
                self.profile = Some((profile, game_profile));
                self.update_state();
                Ok(())
            },
            Err(e) => {
                self.storage.notify(e);
                Err(e)
            },
        }
    }
}

impl MainApp {
    /// Drops every edit: decodes the loaded buffer again and recomputes the
    /// derived state. Does nothing when no file is loaded.
    pub fn undo_all(&mut self)
        requires
            old(self).wf(),
        ensures
            final(self).wf(),
            final(self)@.storage == old(self)@.storage,
            match old(self)@.loaded {
                Some((raw, _)) => final(self)@.loaded == Some((raw, profile_of(raw))),
                None => final(self)@ == old(self)@,
            },
    {
        match self.profile.take() {
            Some((raw, _)) => {
                let game_profile = GameProfile::dump(&raw);
                self.profile = Some((raw, game_profile));
                self.update_state();
            },
            None => {},
        }
    }

    /// The loaded buffer with the edited fields written in; the loaded
    /// buffer itself is left as it is.
    pub fn encoded_bytes(&self) -> (r: Option<Vec<u8>>)
        requires
            self.wf(),
        ensures
            match self@.loaded {
                Some((raw, p)) => r matches Some(bytes) && encodes(raw, p, bytes@),
                None => r is None,
            },
    {
        match &self.profile {
            Some((raw, gp)) => {
                let mut modified = raw.duplicate();
                gp.write(&mut modified);
                Some(modified.into_bytes())
            },
            None => None,
        }
    }

    /// Queues a save of the edited profile; `false` when nothing is loaded.
    pub fn show_save_button(&mut self) -> (r: bool)
        requires
            old(self).wf(),
        ensures
            final(self).wf(),
            r == old(self)@.loaded is Some,
            final(self)@.loaded == old(self)@.loaded,
            final(self)@.weapon_num == old(self)@.weapon_num,
            final(self)@.inventory_num == old(self)@.inventory_num,
            final(self)@.equip_checked == old(self)@.equip_checked,
            final(self)@.storage.inbox == old(self)@.storage.inbox,
            !r ==> final(self)@.storage == old(self)@.storage,
            r ==> final(self)@.storage.tasks.drop_last() == old(self)@.storage.tasks,
            r ==> (final(self)@.storage.tasks.last() matches IoTask::Save(bytes) && encodes(
                old(self)@.loaded->Some_0.0,
                current(old(self)@),
                bytes@,
            )),
    {
        match self.encoded_bytes() {
            Some(bytes) => {
                self.storage.try_write_data(bytes.as_slice());
                true
            },
            None => false,
        }
    }

    /// Queues a task that lets the user pick a save file to load.
    pub fn file_ops(&mut self)
        ensures
            final(self)@ == (EditorModel {
                storage: dispatched(old(self)@.storage, IoTask::Open),
                ..old(self)@
            }),
    {
        self.storage.open_dialog();
    }

    /// Hands the oldest waiting background task to a worker.
    pub fn next_task(&mut self) -> (r: Option<IoTask>)
        ensures
            old(self)@.storage.tasks.len() == 0 ==> r is None && final(self)@ == old(self)@,
            old(self)@.storage.tasks.len() > 0 ==> r == Some(old(self)@.storage.tasks[0])
                && final(self)@ == (EditorModel {
                storage: StorageModel {
                    tasks: old(self)@.storage.tasks.drop_first(),
                    ..old(self)@.storage
                },
                ..old(self)@
            }),
    {
        self.storage.next_task()
    }

    /// Hands in bytes that a background read, or a dropped file, produced.
    pub fn drag_handle(&mut self, dropped: Option<Vec<u8>>)
        ensures
            final(self)@ == (EditorModel {
                storage: match dropped {
                    Some(data) => delivered(old(self)@.storage, data),
                    None => old(self)@.storage,
                },
                ..old(self)@
            }),
    {
        self.storage.drag_handle(dropped);
    }

    /// One redraw tick: takes the newest delivered file, if any, and loads it.
    pub fn update(&mut self) -> (r: Option<Result<(), FormatError>>)
        requires
            old(self).wf(),
        ensures
            final(self).wf(),
            final(self)@.storage.inbox.len() == 0,
            latest(old(self)@.storage) is None ==> r is None && final(self)@ == (EditorModel {
                storage: drained(old(self)@.storage),
                ..old(self)@
            }),
            latest(old(self)@.storage) is Some && valid_profile(newest(old(self)@)) ==> r == Some(
                Ok::<(), FormatError>(()),
            ) && final(self)@.loaded == Some((newest(old(self)@), profile_of(newest(old(self)@))))
                && final(self)@.storage == drained(old(self)@.storage),
            latest(old(self)@.storage) is Some && !valid_profile(newest(old(self)@)) ==> r == Some(
                Err::<(), FormatError>(load_error(newest(old(self)@))),
            ) && final(self)@ == (EditorModel {
                storage: dispatched(
                    drained(old(self)@.storage),
                    IoTask::Notify(load_error(newest(old(self)@))),
                ),
                ..old(self)@
            }),
    {
        match self.storage.try_read_data() {
            Some(data) => match self.verify_and_init(data) {
                Ok(()) => Some(Ok(())),
                Err(e) => Some(Err(e)),
            },
            None => None,
        }
    }
}

impl MainApp {
    /// Fills the first empty weapon slot; refused when nothing is loaded,
    /// every slot is taken, or `w` is itself empty.
    pub fn add_weapon(&mut self, w: Weapon) -> (r: bool)
        requires
            old(self).wf(),
        ensures
            final(self).wf(),
            final(self)@.storage == old(self)@.storage,
            r == (old(self)@.loaded is Some && old(self)@.weapon_num < WEAPON_SLOTS
                && w.classification != EMPTY_SLOT),
            r ==> final(self)@.loaded == edited(
                old(self)@,
                with_weapon(current(old(self)@), old(self)@.weapon_num, w),
            ),
            !r ==> final(self)@ == old(self)@,
            r && gap_free(current(old(self)@)) ==> gap_free(current(final(self)@))
                && final(self)@.weapon_num == old(self)@.weapon_num + 1,
    {
        if self.weapon_num >= WEAPON_SLOTS || w.classification == EMPTY_SLOT {
            return false;
        }
        match self.profile.take() {
            Some((raw, mut gp)) => {
                let n = self.weapon_num;
                let ghost before = gp@;
                gp.weapon.set(n, w);
                self.profile = Some((raw, gp));
                self.update_state();
                proof {
                    lemma_weapon_classes_update(before.weapon, n as int, w);
                    if gap_free(before) {
                        lemma_fill_next(weapon_classes(before.weapon), n as int, w.classification);
                        lemma_active_count_unique(
                            weapon_classes(gp@.weapon),
                            n + 1,
                            self.weapon_num as int,
                        );
                    }
                }
                true
            },
            None => false,
        }
    }
}

impl MainApp {
    /// Empties the last active weapon slot; refused when there is none.
    pub fn remove_weapon(&mut self) -> (r: bool)
        requires
            old(self).wf(),
        ensures
            final(self).wf(),
            final(self)@.storage == old(self)@.storage,
            r == (old(self)@.loaded is Some && old(self)@.weapon_num > 0),
            r ==> final(self)@.loaded == edited(
                old(self)@,
                with_weapon(current(old(self)@), old(self)@.weapon_num - 1, empty_weapon()),
            ) && final(self)@.weapon_num == old(self)@.weapon_num - 1,
            !r ==> final(self)@ == old(self)@,
            r && gap_free(current(old(self)@)) ==> gap_free(current(final(self)@)),
    {
        if self.weapon_num == 0 {
            return false;
        }
        match self.profile.take() {
            Some((raw, mut gp)) => {
                let n = self.weapon_num - 1;
                let ghost before = gp@;
                let empty = Weapon { classification: EMPTY_SLOT, level: 0, exp: 0, max_ammo: 0, ammo: 0 };
                gp.weapon.set(n, empty);
                self.profile = Some((raw, gp));
                self.update_state();
                proof {
                    lemma_weapon_classes_update(before.weapon, n as int, empty);
                    lemma_empty_last(weapon_classes(before.weapon), n + 1);
                    lemma_active_count_unique(
                        weapon_classes(gp@.weapon),
                        n as int,
                        self.weapon_num as int,
                    );
                }
                true
            },
            None => false,
        }
    }

    /// Replaces active weapon slot `i` by the occupied slot `w`.
    pub fn set_weapon(&mut self, i: usize, w: Weapon) -> (r: bool)
        requires
            old(self).wf(),
        ensures
            final(self).wf(),
            final(self)@.storage == old(self)@.storage,
            r == (old(self)@.loaded is Some && i < old(self)@.weapon_num && w.classification
                != EMPTY_SLOT),
            r ==> final(self)@.loaded == edited(
                old(self)@,
                with_weapon(current(old(self)@), i as int, w),
            ) && final(self)@.weapon_num == old(self)@.weapon_num,
            !r ==> final(self)@ == old(self)@,
            r && gap_free(current(old(self)@)) ==> gap_free(current(final(self)@)),
    {
        if i >= self.weapon_num || w.classification == EMPTY_SLOT {
            return false;
        }
        match self.profile.take() {
            Some((raw, mut gp)) => {
                let ghost before = gp@;
                gp.weapon.set(i, w);
                self.profile = Some((raw, gp));
                self.update_state();
                proof {
                    let n = old(self)@.weapon_num;
                    lemma_weapon_classes_update(before.weapon, i as int, w);
                    lemma_replace_active(weapon_classes(before.weapon), n, i as int, w.classification);
                    lemma_active_count_unique(weapon_classes(gp@.weapon), n, self.weapon_num as int);
                }
                true
            },
            None => false,
        }
    }

    /// Empties every weapon slot in one step.
    pub fn reset_weapons(&mut self) -> (r: bool)
        requires
            old(self).wf(),
        ensures
            final(self).wf(),
            final(self)@.storage == old(self)@.storage,
            r == old(self)@.loaded is Some,
            r ==> final(self)@.loaded == edited(old(self)@, without_weapons(current(old(self)@)))
                && final(self)@.weapon_num == 0,
            !r ==> final(self)@ == old(self)@,
            r && gap_free(current(old(self)@)) ==> gap_free(current(final(self)@)),
    {
        match self.profile.take() {
            Some((raw, mut gp)) => {
                let ghost before = gp@;
                let mut k: usize = 0;
                while k < WEAPON_SLOTS
                    invariant
                        k <= WEAPON_SLOTS,
                        gp.weapon@.len() == WEAPON_SLOTS,
                        gp@ == (ProfileModel { weapon: gp.weapon@, ..before }),
                        forall|j: int| 0 <= j < k ==> gp.weapon@[j] == empty_weapon(),
                    decreases WEAPON_SLOTS - k,
                {
                    gp.weapon.set(k, Weapon { classification: EMPTY_SLOT, level: 0, exp: 0, max_ammo: 0, ammo: 0 });
                    k = k + 1;
                }
                assert(gp@ == without_weapons(before)) by {
                    assert(gp.weapon@ =~= without_weapons(before).weapon);
                }
                self.profile = Some((raw, gp));
                self.update_state();
                proof {
                    lemma_all_empty(weapon_classes(gp@.weapon));
                    lemma_active_count_unique(weapon_classes(gp@.weapon), 0, self.weapon_num as int);
                }
                true
            },
            None => false,
        }
    }

    /// Fills the first empty inventory slot; refused when nothing is loaded,
    /// every slot is taken, or `item` is itself empty.
    pub fn add_item(&mut self, item: i32) -> (r: bool)
        requires
            old(self).wf(),
        ensures
            final(self).wf(),
            final(self)@.storage == old(self)@.storage,
            r == (old(self)@.loaded is Some && old(self)@.inventory_num < INVENTORY_SLOTS && item
                != EMPTY_SLOT),
            r ==> final(self)@.loaded == edited(
                old(self)@,
                with_item(current(old(self)@), old(self)@.inventory_num, item),
            ),
            !r ==> final(self)@ == old(self)@,
            r && gap_free(current(old(self)@)) ==> gap_free(current(final(self)@))
                && final(self)@.inventory_num == old(self)@.inventory_num + 1,
    {
        if self.inventory_num >= INVENTORY_SLOTS || item == EMPTY_SLOT {
            return false;
        }
        match self.profile.take() {
            Some((raw, mut gp)) => {
                let n = self.inventory_num;
                let ghost before = gp@;
                gp.inventory.set(n, item);
                self.profile = Some((raw, gp));
                self.update_state();
                proof {
                    if gap_free(before) {
                        lemma_fill_next(before.inventory, n as int, item);
                        lemma_active_count_unique(gp@.inventory, n + 1, self.inventory_num as int);
                    }
                }
                true
            },
            None => false,
        }
    }

    /// Empties the last active inventory slot; refused when there is none.
    pub fn remove_item(&mut self) -> (r: bool)
        requires
            old(self).wf(),
        ensures
            final(self).wf(),
            final(self)@.storage == old(self)@.storage,
            r == (old(self)@.loaded is Some && old(self)@.inventory_num > 0),
            r ==> final(self)@.loaded == edited(
                old(self)@,
                with_item(current(old(self)@), old(self)@.inventory_num - 1, EMPTY_SLOT),
            ) && final(self)@.inventory_num == old(self)@.inventory_num - 1,
            !r ==> final(self)@ == old(self)@,
            r && gap_free(current(old(self)@)) ==> gap_free(current(final(self)@)),
    {
        if self.inventory_num == 0 {
            return false;
        }
        match self.profile.take() {
            Some((raw, mut gp)) => {
                let n = self.inventory_num - 1;
                let ghost before = gp@;
                gp.inventory.set(n, EMPTY_SLOT);
                self.profile = Some((raw, gp));
                self.update_state();
                proof {
                    lemma_empty_last(before.inventory, n + 1);
                    lemma_active_count_unique(gp@.inventory, n as int, self.inventory_num as int);
                }
                true
            },
            None => false,
        }
    }

    /// Replaces active inventory slot `i` by the occupied item `item`.
    pub fn set_item(&mut self, i: usize, item: i32) -> (r: bool)
        requires
            old(self).wf(),
        ensures
            final(self).wf(),
            final(self)@.storage == old(self)@.storage,
            r == (old(self)@.loaded is Some && i < old(self)@.inventory_num && item != EMPTY_SLOT),
            r ==> final(self)@.loaded == edited(
                old(self)@,
                with_item(current(old(self)@), i as int, item),
            ) && final(self)@.inventory_num == old(self)@.inventory_num,
            !r ==> final(self)@ == old(self)@,
            r && gap_free(current(old(self)@)) ==> gap_free(current(final(self)@)),
    {
        if i >= self.inventory_num || item == EMPTY_SLOT {
            return false;
        }
        match self.profile.take() {
            Some((raw, mut gp)) => {
                let ghost before = gp@;
                gp.inventory.set(i, item);
                self.profile = Some((raw, gp));
                self.update_state();
                proof {
                    let n = old(self)@.inventory_num;
                    lemma_replace_active(before.inventory, n, i as int, item);
                    lemma_active_count_unique(gp@.inventory, n, self.inventory_num as int);
                }
                true
            },
            None => false,
        }
    }

    /// Empties every inventory slot in one step.
    pub fn reset_inventory(&mut self) -> (r: bool)
        requires
            old(self).wf(),
        ensures
            final(self).wf(),
            final(self)@.storage == old(self)@.storage,
            r == old(self)@.loaded is Some,
            r ==> final(self)@.loaded == edited(old(self)@, without_items(current(old(self)@)))
                && final(self)@.inventory_num == 0,
            !r ==> final(self)@ == old(self)@,
            r && gap_free(current(old(self)@)) ==> gap_free(current(final(self)@)),
    {
        match self.profile.take() {
            Some((raw, mut gp)) => {
                let ghost before = gp@;
                let mut k: usize = 0;
                while k < INVENTORY_SLOTS
                    invariant
                        k <= INVENTORY_SLOTS,
                        gp.inventory@.len() == INVENTORY_SLOTS,
                        gp@ == (ProfileModel { inventory: gp.inventory@, ..before }),
                        forall|j: int| 0 <= j < k ==> gp.inventory@[j] == EMPTY_SLOT,
                    decreases INVENTORY_SLOTS - k,
                {
                    gp.inventory.set(k, EMPTY_SLOT);
                    k = k + 1;
                }
                assert(gp@ == without_items(before)) by {
                    assert(gp.inventory@ =~= without_items(before).inventory);
                }
                self.profile = Some((raw, gp));
                self.update_state();
                proof {
                    lemma_all_empty(gp@.inventory);
                    lemma_active_count_unique(gp@.inventory, 0, self.inventory_num as int);
                }
                true
            },
            None => false,
        }
    }
}

impl MainApp {
    /// Turns equipment kind `k` on or off, in the profile and in its
    /// checkbox mirror together.
    pub fn set_equip(&mut self, k: usize, on: bool) -> (r: bool)
        requires
            old(self).wf(),
        ensures
            final(self).wf(),
            r == (old(self)@.loaded is Some && k < EQUIPMENT_KINDS),
            r ==> final(self)@ == (EditorModel {
                loaded: edited(
                    old(self)@,
                    ProfileModel {
                        equipment: Equipment {
                            bits: switched(current(old(self)@).equipment.bits, k as u32, on),
                        },
                        ..current(old(self)@)
                    },
                ),
                equip_checked: old(self)@.equip_checked.update(k as int, on),
                ..old(self)@
            }),
            !r ==> final(self)@ == old(self)@,
    {
        if k >= EQUIPMENT_KINDS {
            return false;
        }
        match self.profile.take() {
            Some((raw, mut gp)) => {
                gp.equipment.switch(k as u32, on);
                self.equip_checked[k] = on;
                self.profile = Some((raw, gp));
                proof {
                    let bits = gp.equipment.bits;
                    assert forall|j: int| 0 <= j < EQUIPMENT_KINDS implies #[trigger] self@.equip_checked[j]
                        == flag(bits, j as u32) by {
                        if j != k {
                            assert(flag(bits, j as u32) == flag(current(old(self)@).equipment.bits, j as u32));
                        }
                    }
                }
                true
            },
            None => false,
        }
    }

    pub fn set_health(&mut self, health: i16) -> (r: bool)
        requires
            old(self).wf(),
        ensures
            final(self).wf(),
            r == old(self)@.loaded is Some,
            r ==> final(self)@ == (EditorModel {
                loaded: edited(old(self)@, ProfileModel { health, ..current(old(self)@) }),
                ..old(self)@
            }),
            !r ==> final(self)@ == old(self)@,
    {
        match self.profile.take() {
            Some((raw, mut gp)) => {
                gp.health = health;
                self.profile = Some((raw, gp));
                true
            },
            None => false,
        }
    }

    pub fn set_max_health(&mut self, max_health: i16) -> (r: bool)
        requires
            old(self).wf(),
        ensures
            final(self).wf(),
            r == old(self)@.loaded is Some,
            r ==> final(self)@ == (EditorModel {
                loaded: edited(old(self)@, ProfileModel { max_health, ..current(old(self)@) }),
                ..old(self)@
            }),
            !r ==> final(self)@ == old(self)@,
    {
        match self.profile.take() {
            Some((raw, mut gp)) => {
                gp.max_health = max_health;
                self.profile = Some((raw, gp));
                true
            },
            None => false,
        }
    }

    pub fn set_position(&mut self, position: Position) -> (r: bool)
        requires
            old(self).wf(),
        ensures
            final(self).wf(),
            r == old(self)@.loaded is Some,
            r ==> final(self)@ == (EditorModel {
                loaded: edited(old(self)@, ProfileModel { position, ..current(old(self)@) }),
                ..old(self)@
            }),
            !r ==> final(self)@ == old(self)@,
    {
        match self.profile.take() {
            Some((raw, mut gp)) => {
                gp.position = position;
                self.profile = Some((raw, gp));
                true
            },
            None => false,
        }
    }

    /// Sets the background track id.
    pub fn set_music(&mut self, music: i32) -> (r: bool)
        requires
            old(self).wf(),
        ensures
            final(self).wf(),
            r == old(self)@.loaded is Some,
            r ==> final(self)@ == (EditorModel {
                loaded: edited(old(self)@, ProfileModel { music, ..current(old(self)@) }),
                ..old(self)@
            }),
            !r ==> final(self)@ == old(self)@,
    {
        match self.profile.take() {
            Some((raw, mut gp)) => {
                gp.music = music;
                self.profile = Some((raw, gp));
                true
            },
            None => false,
        }
    }

    /// Sets the map id.
    pub fn set_map(&mut self, map: i32) -> (r: bool)
        requires
            old(self).wf(),
        ensures
            final(self).wf(),
            r == old(self)@.loaded is Some,
            r ==> final(self)@ == (EditorModel {
                loaded: edited(old(self)@, ProfileModel { map, ..current(old(self)@) }),
                ..old(self)@
            }),
            !r ==> final(self)@ == old(self)@,
    {
        match self.profile.take() {
            Some((raw, mut gp)) => {
                gp.map = map;
                self.profile = Some((raw, gp));
                true
            },
            None => false,
        }
    }

    /// The profile being edited, if a file is loaded.
    pub fn game_profile(&self) -> (r: Option<&GameProfile>)
        ensures
            match self@.loaded {
                Some((_, p)) => r matches Some(gp) && gp@ == p,
                None => r is None,
            },
    {
        match &self.profile {
            Some((_, gp)) => Some(gp),
            None => None,
        }
    }

    /// The loaded buffer, if a file is loaded.
    pub fn raw_profile(&self) -> (r: Option<&Profile>)
        ensures
            match self@.loaded {
                Some((raw, _)) => r matches Some(p) && p@ == raw,
                None => r is None,
            },
    {
        match &self.profile {
            Some((raw, _)) => Some(raw),
            None => None,
        }
    }

    pub fn weapon_num(&self) -> (r: usize)
        ensures
            r == self@.weapon_num,
    {
        self.weapon_num
    }

    pub fn inventory_num(&self) -> (r: usize)
        ensures
            r == self@.inventory_num,
    {
        self.inventory_num
    }

    pub fn equip_checked(&self) -> (r: [bool; 9])
        ensures
            r@ == self@.equip_checked,
    {
        self.equip_checked
    }
}

/// A decoded profile has no gap in its weapon or inventory slots exactly
/// when the buffer holds no occupied slot past the first empty one; decoding
/// keeps whatever the buffer holds.
pub proof fn lemma_decoded_gap_free(b: Seq<u8>, weapon_num: int, inventory_num: int)
    requires
        valid_profile(b),
        is_active_count(weapon_classes(profile_of(b).weapon), weapon_num),
        is_active_count(profile_of(b).inventory, inventory_num),
    ensures
        gap_free(profile_of(b)) <==> (forall|k: int|
            weapon_num <= k < WEAPON_SLOTS ==> #[trigger] weapon_at(b, k).classification
                == EMPTY_SLOT) && (forall|k: int|
            inventory_num <= k < INVENTORY_SLOTS ==> #[trigger] item_at(b, k) == EMPTY_SLOT),
{
    let p = profile_of(b);
    let ws = weapon_classes(p.weapon);
    lemma_gap_free_iff_tail_empty(ws, weapon_num);
    lemma_gap_free_iff_tail_empty(p.inventory, inventory_num);
    assert((forall|k: int| weapon_num <= k < WEAPON_SLOTS ==> #[trigger] weapon_at(b, k).classification
        == EMPTY_SLOT) <==> (forall|k: int| weapon_num <= k < ws.len() ==> ws[k] == EMPTY_SLOT)) by {
        assert forall|k: int| 0 <= k < WEAPON_SLOTS implies ws[k] == #[trigger] weapon_at(
            b,
            k,
        ).classification by {}
    }
    assert((forall|k: int| inventory_num <= k < INVENTORY_SLOTS ==> #[trigger] item_at(b, k)
        == EMPTY_SLOT) <==> (forall|k: int| inventory_num <= k < p.inventory.len() ==> p.inventory[k]
        == EMPTY_SLOT)) by {
        assert forall|k: int| 0 <= k < INVENTORY_SLOTS implies p.inventory[k] == #[trigger] item_at(
            b,
            k,
        ) by {}
    }
}

} // verus!
