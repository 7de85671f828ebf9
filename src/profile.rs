//! The save-file layout, the raw buffer, and the structured profile that is
//! decoded from it and encoded back into it.
use crate::layout::{
    le_i16, le_i32, le_u32, read_i16, read_i32, read_u32, same_outside, write_i16, write_i32,
    write_u32,
};
use crate::layout::{lemma_le_u16_determines_bytes, lemma_le_u32_determines_bytes};
use vstd::prelude::*;

verus! {

pub const MAP_OFFSET: usize = 0x08;

pub const MUSIC_OFFSET: usize = 0x0C;

pub const POSITION_X_OFFSET: usize = 0x10;

pub const POSITION_Y_OFFSET: usize = 0x14;

pub const MAX_HEALTH_OFFSET: usize = 0x1C;

pub const HEALTH_OFFSET: usize = 0x20;

pub const EQUIPMENT_OFFSET: usize = 0x2C;

pub const WEAPON_OFFSET: usize = 0x38;

/// Bytes per weapon slot: type, level, experience, max ammo, ammo.
pub const WEAPON_SIZE: usize = 20;

pub const WEAPON_SLOTS: usize = 7;

pub const INVENTORY_OFFSET: usize = 0xD8;

pub const INVENTORY_SLOTS: usize = 31;

pub const TELEPORTER_OFFSET: usize = 0x158;

/// Bytes per teleporter slot: menu entry, destination.
pub const TELEPORTER_SIZE: usize = 8;

pub const TELEPORTER_SLOTS: usize = 8;

/// The shortest buffer that holds every modeled field.
pub const PROFILE_MIN_LEN: usize = 0x198;

/// Weapon type and item id that mark an empty slot.
pub const EMPTY_SLOT: i32 = 0;

/// The buffer starts with the header token `Do041220`.
pub open spec fn has_magic(b: Seq<u8>) -> bool {
    &&& b.len() >= 8
    &&& b[0] == 0x44u8
    &&& b[1] == 0x6fu8
    &&& b[2] == 0x30u8
    &&& b[3] == 0x34u8
    &&& b[4] == 0x31u8
    &&& b[5] == 0x32u8
    &&& b[6] == 0x32u8
    &&& b[7] == 0x30u8
}

pub open spec fn valid_profile(b: Seq<u8>) -> bool {
    has_magic(b) && b.len() >= PROFILE_MIN_LEN
}

#[derive(Debug, Clone, Copy, PartialEq, Eq, Structural)]
pub enum FormatError {
    /// The first eight bytes are not the header token.
    BadMagic,
    /// The header is right but the buffer ends before the last modeled field.
    Truncated,
}

#[derive(Debug, Clone, Copy, PartialEq, Eq, Structural)]
pub struct Position {
    pub x: i32,
    pub y: i32,
}

#[derive(Debug, Clone, Copy, PartialEq, Eq, Structural)]
pub struct Weapon {
    /// Weapon type; `EMPTY_SLOT` for none.
    pub classification: i32,
    pub level: i32,
    pub exp: i32,
    pub max_ammo: i32,
    pub ammo: i32,
}

#[derive(Debug, Clone, Copy, PartialEq, Eq, Structural)]
pub struct Teleporter {
    pub menu: i32,
    pub location: i32,
}

/// Equipment flags, one bit each, as stored in the file.
#[derive(Debug, Clone, Copy, PartialEq, Eq, Structural)]
pub struct Equipment {
    pub bits: u32,
}

/// The editable fields of a save file.
pub struct GameProfile {
    pub position: Position,
    pub map: i32,
    pub music: i32,
    pub health: i16,
    pub max_health: i16,
    pub weapon: Vec<Weapon>,
    pub inventory: Vec<i32>,
    pub equipment: Equipment,
    pub teleporter: Vec<Teleporter>,
}

/// Mathematical model of a `GameProfile`.
pub struct ProfileModel {
    pub position: Position,
    pub map: i32,
    pub music: i32,
    pub health: i16,
    pub max_health: i16,
    pub weapon: Seq<Weapon>,
    pub inventory: Seq<i32>,
    pub equipment: Equipment,
    pub teleporter: Seq<Teleporter>,
}

impl View for GameProfile {
    type V = ProfileModel;

    open spec fn view(&self) -> ProfileModel {
        ProfileModel {
            position: self.position,
            map: self.map,
            music: self.music,
            health: self.health,
            max_health: self.max_health,
            weapon: self.weapon@,
            inventory: self.inventory@,
            equipment: self.equipment,
            teleporter: self.teleporter@,
        }
    }
}

pub open spec fn weapon_at(b: Seq<u8>, k: int) -> Weapon {
    let off = WEAPON_OFFSET + WEAPON_SIZE * k;
    Weapon {
        classification: le_i32(b, off) as i32,
        level: le_i32(b, off + 4) as i32,
        exp: le_i32(b, off + 8) as i32,
        max_ammo: le_i32(b, off + 12) as i32,
        ammo: le_i32(b, off + 16) as i32,
    }
}

pub open spec fn item_at(b: Seq<u8>, k: int) -> i32 {
    le_i32(b, INVENTORY_OFFSET + 4 * k) as i32
}

pub open spec fn teleporter_at(b: Seq<u8>, k: int) -> Teleporter {
    let off = TELEPORTER_OFFSET + TELEPORTER_SIZE * k;
    Teleporter { menu: le_i32(b, off) as i32, location: le_i32(b, off + 4) as i32 }
}

/// The fields that the layout places in `b`.
pub open spec fn profile_of(b: Seq<u8>) -> ProfileModel {
    ProfileModel {
        position: Position {
            x: le_i32(b, POSITION_X_OFFSET as int) as i32,
            y: le_i32(b, POSITION_Y_OFFSET as int) as i32,
        },
        map: le_i32(b, MAP_OFFSET as int) as i32,
        music: le_i32(b, MUSIC_OFFSET as int) as i32,
        health: le_i16(b, HEALTH_OFFSET as int) as i16,
        max_health: le_i16(b, MAX_HEALTH_OFFSET as int) as i16,
        weapon: Seq::new(WEAPON_SLOTS as nat, |k: int| weapon_at(b, k)),
        inventory: Seq::new(INVENTORY_SLOTS as nat, |k: int| item_at(b, k)),
        equipment: Equipment { bits: le_u32(b, EQUIPMENT_OFFSET as int) as u32 },
        teleporter: Seq::new(TELEPORTER_SLOTS as nat, |k: int| teleporter_at(b, k)),
    }
}

/// Byte `i` belongs to a modeled field.
pub open spec fn field_byte(i: int) -> bool {
    ||| MAP_OFFSET <= i < POSITION_Y_OFFSET + 4
    ||| MAX_HEALTH_OFFSET <= i < MAX_HEALTH_OFFSET + 2
    ||| HEALTH_OFFSET <= i < HEALTH_OFFSET + 2
    ||| EQUIPMENT_OFFSET <= i < EQUIPMENT_OFFSET + 4
    ||| WEAPON_OFFSET <= i < WEAPON_OFFSET + WEAPON_SIZE * WEAPON_SLOTS
    ||| INVENTORY_OFFSET <= i < INVENTORY_OFFSET + 4 * INVENTORY_SLOTS
    ||| TELEPORTER_OFFSET <= i < TELEPORTER_OFFSET + TELEPORTER_SIZE * TELEPORTER_SLOTS
}

/// `after` is `before` with the fields of `p` written in and every other
/// byte kept.
pub open spec fn encodes(before: Seq<u8>, p: ProfileModel, after: Seq<u8>) -> bool {
    &&& after.len() == before.len()
    &&& profile_of(after) == p
    &&& forall|i: int| 0 <= i < before.len() && !field_byte(i) ==> #[trigger] after[i] == before[i]
}

impl GameProfile {
    /// Each slot sequence has the layout's capacity.
    pub open spec fn wf(&self) -> bool {
        &&& self.weapon@.len() == WEAPON_SLOTS
        &&& self.inventory@.len() == INVENTORY_SLOTS
        &&& self.teleporter@.len() == TELEPORTER_SLOTS
    }
}

/// Accepts a buffer that starts with the header token and holds every
/// modeled field; the header is checked first.
pub fn check_header(b: &Vec<u8>) -> (r: Result<(), FormatError>)
    ensures
        r == Ok::<(), FormatError>(()) <==> valid_profile(b@),
        r == Err::<(), FormatError>(FormatError::BadMagic) <==> !has_magic(b@),
        r == Err::<(), FormatError>(FormatError::Truncated) <==> has_magic(b@) && b@.len()
            < PROFILE_MIN_LEN,
{
    if b.len() < 8 {
        return Err(FormatError::BadMagic);
    }
    if !(b[0] == 0x44 && b[1] == 0x6f && b[2] == 0x30 && b[3] == 0x34 && b[4] == 0x31 && b[5]
        == 0x32 && b[6] == 0x32 && b[7] == 0x30) {
        return Err(FormatError::BadMagic);
    }
    if b.len() < PROFILE_MIN_LEN {
        return Err(FormatError::Truncated);
    }
    Ok(())
}

fn read_weapon(b: &Vec<u8>, k: usize) -> (w: Weapon)
    requires
        k < WEAPON_SLOTS,
        b@.len() >= PROFILE_MIN_LEN,
    ensures
        w == weapon_at(b@, k as int),
{
    let off = WEAPON_OFFSET + WEAPON_SIZE * k;
    Weapon {
        classification: read_i32(b, off),
        level: read_i32(b, off + 4),
        exp: read_i32(b, off + 8),
        max_ammo: read_i32(b, off + 12),
        ammo: read_i32(b, off + 16),
    }
}

fn read_teleporter(b: &Vec<u8>, k: usize) -> (t: Teleporter)
    requires
        k < TELEPORTER_SLOTS,
        b@.len() >= PROFILE_MIN_LEN,
    ensures
        t == teleporter_at(b@, k as int),
{
    let off = TELEPORTER_OFFSET + TELEPORTER_SIZE * k;
    Teleporter { menu: read_i32(b, off), location: read_i32(b, off + 4) }
}

/// Reads every modeled field of a buffer long enough to hold them.
fn read_fields(b: &Vec<u8>) -> (p: GameProfile)
    requires
        b@.len() >= PROFILE_MIN_LEN,
    ensures
        p.wf(),
        p@ == profile_of(b@),
{
    let mut weapon: Vec<Weapon> = Vec::new();
    let mut k: usize = 0;
    while k < WEAPON_SLOTS
        invariant
            k <= WEAPON_SLOTS,
            b@.len() >= PROFILE_MIN_LEN,
            weapon@ =~= Seq::new(k as nat, |j: int| weapon_at(b@, j)),
        decreases WEAPON_SLOTS - k,
    {
        weapon.push(read_weapon(b, k));
        k = k + 1;
    }
    let mut inventory: Vec<i32> = Vec::new();
    let mut k: usize = 0;
    while k < INVENTORY_SLOTS
        invariant
            k <= INVENTORY_SLOTS,
            b@.len() >= PROFILE_MIN_LEN,
            inventory@ =~= Seq::new(k as nat, |j: int| item_at(b@, j)),
        decreases INVENTORY_SLOTS - k,
    {
        inventory.push(read_i32(b, INVENTORY_OFFSET + 4 * k));
        k = k + 1;
    }
    let mut teleporter: Vec<Teleporter> = Vec::new();
    let mut k: usize = 0;
    while k < TELEPORTER_SLOTS
        invariant
            k <= TELEPORTER_SLOTS,
            b@.len() >= PROFILE_MIN_LEN,
            teleporter@ =~= Seq::new(k as nat, |j: int| teleporter_at(b@, j)),
        decreases TELEPORTER_SLOTS - k,
    {
        teleporter.push(read_teleporter(b, k));
        k = k + 1;
    }
    let p = GameProfile {
        position: Position { x: read_i32(b, POSITION_X_OFFSET), y: read_i32(b, POSITION_Y_OFFSET) },
        map: read_i32(b, MAP_OFFSET),
        music: read_i32(b, MUSIC_OFFSET),
        health: read_i16(b, HEALTH_OFFSET),
        max_health: read_i16(b, MAX_HEALTH_OFFSET),
        weapon,
        inventory,
        equipment: Equipment { bits: read_u32(b, EQUIPMENT_OFFSET) },
        teleporter,
    };
    assert(p@.weapon =~= profile_of(b@).weapon);
    assert(p@.inventory =~= profile_of(b@).inventory);
    assert(p@.teleporter =~= profile_of(b@).teleporter);
    p
}

fn write_weapon(b: &mut Vec<u8>, k: usize, w: Weapon)
    requires
        k < WEAPON_SLOTS,
        old(b)@.len() >= PROFILE_MIN_LEN,
    ensures
        same_outside(old(b)@, final(b)@, WEAPON_OFFSET + WEAPON_SIZE * k, WEAPON_SIZE as int),
        weapon_at(final(b)@, k as int) == w,
{
    let off = WEAPON_OFFSET + WEAPON_SIZE * k;
    write_i32(b, off, w.classification);
    write_i32(b, off + 4, w.level);
    write_i32(b, off + 8, w.exp);
    write_i32(b, off + 12, w.max_ammo);
    write_i32(b, off + 16, w.ammo);
}

fn write_teleporter(b: &mut Vec<u8>, k: usize, t: Teleporter)
    requires
        k < TELEPORTER_SLOTS,
        old(b)@.len() >= PROFILE_MIN_LEN,
    ensures
        same_outside(
            old(b)@,
            final(b)@,
            TELEPORTER_OFFSET + TELEPORTER_SIZE * k,
            TELEPORTER_SIZE as int,
        ),
        teleporter_at(final(b)@, k as int) == t,
{
    let off = TELEPORTER_OFFSET + TELEPORTER_SIZE * k;
    write_i32(b, off, t.menu);
    write_i32(b, off + 4, t.location);
}

/// Writes every field of `p` into `b` and leaves all other bytes as they were.
/// A buffer too short for the layout is a caller error.
pub fn encode(p: &GameProfile, b: &mut Vec<u8>)
    requires
        p.wf(),
        old(b)@.len() >= PROFILE_MIN_LEN,
    ensures
        encodes(old(b)@, p@, final(b)@),
{
    let ghost orig = b@;
    write_i32(b, MAP_OFFSET, p.map);
    write_i32(b, MUSIC_OFFSET, p.music);
    write_i32(b, POSITION_X_OFFSET, p.position.x);
    write_i32(b, POSITION_Y_OFFSET, p.position.y);
    write_i16(b, MAX_HEALTH_OFFSET, p.max_health);
    write_i16(b, HEALTH_OFFSET, p.health);
    write_u32(b, EQUIPMENT_OFFSET, p.equipment.bits);
    let ghost head = b@;
    assert(forall|i: int| 0 <= i < orig.len() && !field_byte(i) ==> head[i] == orig[i]);

    let mut k: usize = 0;
    while k < WEAPON_SLOTS
        invariant
            k <= WEAPON_SLOTS,
            p.wf(),
            same_outside(head, b@, WEAPON_OFFSET as int, WEAPON_SIZE * k),
            head.len() >= PROFILE_MIN_LEN,
            forall|j: int| 0 <= j < k ==> weapon_at(b@, j) == p.weapon@[j],
        decreases WEAPON_SLOTS - k,
    {
        let ghost before = b@;
        write_weapon(b, k, p.weapon[k]);
        assert forall|j: int| 0 <= j < k implies weapon_at(b@, j) == p.weapon@[j] by {
            assert(weapon_at(b@, j) == weapon_at(before, j));
        }
        k = k + 1;
    }
    let ghost armed = b@;

    let mut k: usize = 0;
    while k < INVENTORY_SLOTS
        invariant
            k <= INVENTORY_SLOTS,
            p.wf(),
            same_outside(armed, b@, INVENTORY_OFFSET as int, 4 * k),
            armed.len() >= PROFILE_MIN_LEN,
            forall|j: int| 0 <= j < k ==> item_at(b@, j) == p.inventory@[j],
        decreases INVENTORY_SLOTS - k,
    {
        let ghost before = b@;
        write_i32(b, INVENTORY_OFFSET + 4 * k, p.inventory[k]);
        assert forall|j: int| 0 <= j < k implies item_at(b@, j) == p.inventory@[j] by {
            assert(item_at(b@, j) == item_at(before, j));
        }
        k = k + 1;
    }
    let ghost stocked = b@;

    let mut k: usize = 0;
    while k < TELEPORTER_SLOTS
        invariant
            k <= TELEPORTER_SLOTS,
            p.wf(),
            same_outside(stocked, b@, TELEPORTER_OFFSET as int, TELEPORTER_SIZE * k),
            stocked.len() >= PROFILE_MIN_LEN,
            forall|j: int| 0 <= j < k ==> teleporter_at(b@, j) == p.teleporter@[j],
        decreases TELEPORTER_SLOTS - k,
    {
        let ghost before = b@;
        write_teleporter(b, k, p.teleporter[k]);
        assert forall|j: int| 0 <= j < k implies teleporter_at(b@, j) == p.teleporter@[j] by {
            assert(teleporter_at(b@, j) == teleporter_at(before, j));
        }
        k = k + 1;
    }
    let ghost fin = b@;
    assert forall|j: int| 0 <= j < WEAPON_SLOTS implies weapon_at(fin, j) == weapon_at(armed, j) by {}
    assert forall|j: int| 0 <= j < INVENTORY_SLOTS implies item_at(fin, j) == item_at(stocked, j) by {}
    assert(profile_of(fin).weapon =~= p@.weapon);
    assert(profile_of(fin).inventory =~= p@.inventory);
    assert(profile_of(fin).teleporter =~= p@.teleporter);
    assert(le_i32(fin, MAP_OFFSET as int) == le_i32(head, MAP_OFFSET as int));
    assert(le_i32(fin, MUSIC_OFFSET as int) == le_i32(head, MUSIC_OFFSET as int));
    assert(le_i32(fin, POSITION_X_OFFSET as int) == le_i32(head, POSITION_X_OFFSET as int));
    assert(le_i32(fin, POSITION_Y_OFFSET as int) == le_i32(head, POSITION_Y_OFFSET as int));
    assert(le_i16(fin, HEALTH_OFFSET as int) == le_i16(head, HEALTH_OFFSET as int));
    assert(le_i16(fin, MAX_HEALTH_OFFSET as int) == le_i16(head, MAX_HEALTH_OFFSET as int));
    assert(le_u32(fin, EQUIPMENT_OFFSET as int) == le_u32(head, EQUIPMENT_OFFSET as int));
    assert(profile_of(fin) == p@);
}

/// Decodes a raw save file. Fails with `BadMagic` when the header token is
/// missing, whatever follows it, and otherwise with `Truncated` when the
/// buffer is too short; no profile is built on failure.
pub fn decode(data: &Vec<u8>) -> (r: Result<GameProfile, FormatError>)
    ensures
        r is Ok <==> valid_profile(data@),
        r matches Ok(p) ==> p.wf() && p@ == profile_of(data@),
        r matches Err(e) ==> (e == FormatError::BadMagic <==> !has_magic(data@)),
        r matches Err(e) ==> (e == FormatError::Truncated <==> has_magic(data@)),
{
    match check_header(data) {
        Ok(()) => Ok(read_fields(data)),
        Err(e) => Err(e),
    }
}

/// A save file whose header and length have been checked.
pub struct Profile {
    data: Vec<u8>,
}

impl View for Profile {
    type V = Seq<u8>;

    closed spec fn view(&self) -> Seq<u8> {
        self.data@
    }
}

impl Profile {
    pub open spec fn wf(&self) -> bool {
        valid_profile(self@)
    }

    /// Takes ownership of raw bytes once the header and length check out.
    pub fn from_raw(data: Vec<u8>) -> (r: Result<Profile, FormatError>)
        ensures
            r is Ok <==> valid_profile(data@),
            r matches Ok(p) ==> p.wf() && p@ == data@,
            r matches Err(e) ==> (e == FormatError::BadMagic <==> !has_magic(data@)),
            r matches Err(e) ==> (e == FormatError::Truncated <==> has_magic(data@)),
    {
        match check_header(&data) {
            Ok(()) => Ok(Profile { data }),
            Err(e) => Err(e),
        }
    }

    pub fn as_bytes(&self) -> (r: &Vec<u8>)
        ensures
            r@ == self@,
    {
        &self.data
    }

    pub fn into_bytes(self) -> (r: Vec<u8>)
        ensures
            r@ == self@,
    {
        self.data
    }

    /// An independent copy of the same bytes.
    pub fn duplicate(&self) -> (r: Profile)
        ensures
            r@ == self@,
    {
        let mut data: Vec<u8> = Vec::with_capacity(self.data.len());
        let mut i: usize = 0;
        while i < self.data.len()
            invariant
                i <= self.data@.len(),
                data@ =~= self.data@.subrange(0, i as int),
            decreases self.data@.len() - i,
        {
            data.push(self.data[i]);
            i = i + 1;
        }
        Profile { data }
    }
}

impl GameProfile {
    /// The structured fields of a checked save file.
    pub fn dump(profile: &Profile) -> (r: GameProfile)
        requires
            profile.wf(),
        ensures
            r.wf(),
            r@ == profile_of(profile@),
    {
        read_fields(&profile.data)
    }

    /// Writes these fields into `profile`, keeping every byte they do not cover.
    pub fn write(&self, profile: &mut Profile)
        requires
            self.wf(),
            old(profile).wf(),
        ensures
            final(profile).wf(),
            encodes(old(profile)@, self@, final(profile)@),
    {
        encode(self, &mut profile.data);
    }
}

proof fn lemma_i32_field_bytes(b: Seq<u8>, e: Seq<u8>, off: int)
    requires
        0 <= off,
        off + 4 <= b.len(),
        off + 4 <= e.len(),
        le_i32(b, off) as i32 == le_i32(e, off) as i32,
    ensures
        forall|i: int| off <= i < off + 4 ==> e[i] == b[i],
{
    lemma_le_u32_determines_bytes(b, e, off);
}

proof fn lemma_weapon_bytes(b: Seq<u8>, e: Seq<u8>, k: int)
    requires
        0 <= k < WEAPON_SLOTS,
        b.len() >= PROFILE_MIN_LEN,
        e.len() >= PROFILE_MIN_LEN,
        weapon_at(b, k) == weapon_at(e, k),
    ensures
        forall|i: int|
            WEAPON_OFFSET + WEAPON_SIZE * k <= i < WEAPON_OFFSET + WEAPON_SIZE * k + WEAPON_SIZE
                ==> e[i] == b[i],
{
    let off = WEAPON_OFFSET + WEAPON_SIZE * k;
    lemma_i32_field_bytes(b, e, off);
    lemma_i32_field_bytes(b, e, off + 4);
    lemma_i32_field_bytes(b, e, off + 8);
    lemma_i32_field_bytes(b, e, off + 12);
    lemma_i32_field_bytes(b, e, off + 16);
}

proof fn lemma_teleporter_bytes(b: Seq<u8>, e: Seq<u8>, k: int)
    requires
        0 <= k < TELEPORTER_SLOTS,
        b.len() >= PROFILE_MIN_LEN,
        e.len() >= PROFILE_MIN_LEN,
        teleporter_at(b, k) == teleporter_at(e, k),
    ensures
        forall|i: int|
            TELEPORTER_OFFSET + TELEPORTER_SIZE * k <= i < TELEPORTER_OFFSET + TELEPORTER_SIZE * k
                + TELEPORTER_SIZE ==> e[i] == b[i],
{
    let off = TELEPORTER_OFFSET + TELEPORTER_SIZE * k;
    lemma_i32_field_bytes(b, e, off);
    lemma_i32_field_bytes(b, e, off + 4);
}

/// Two buffers of one length that decode to the same fields and agree
/// outside the fields are equal.
pub proof fn lemma_fields_determine_bytes(b: Seq<u8>, e: Seq<u8>)
    requires
        b.len() >= PROFILE_MIN_LEN,
        e.len() == b.len(),
        profile_of(e) == profile_of(b),
        forall|i: int| 0 <= i < b.len() && !field_byte(i) ==> #[trigger] e[i] == b[i],
    ensures
        e == b,
{
    let pb = profile_of(b);
    let pe = profile_of(e);
    lemma_i32_field_bytes(b, e, MAP_OFFSET as int);
    lemma_i32_field_bytes(b, e, MUSIC_OFFSET as int);
    lemma_i32_field_bytes(b, e, POSITION_X_OFFSET as int);
    lemma_i32_field_bytes(b, e, POSITION_Y_OFFSET as int);
    lemma_i32_field_bytes(b, e, EQUIPMENT_OFFSET as int);
    assert(le_i16(b, HEALTH_OFFSET as int) as i16 == le_i16(e, HEALTH_OFFSET as int) as i16);
    lemma_le_u16_determines_bytes(b, e, HEALTH_OFFSET as int);
    assert(le_i16(b, MAX_HEALTH_OFFSET as int) as i16 == le_i16(e, MAX_HEALTH_OFFSET as int) as i16);
    lemma_le_u16_determines_bytes(b, e, MAX_HEALTH_OFFSET as int);
    assert forall|i: int| 0 <= i < b.len() implies e[i] == b[i] by {
        if WEAPON_OFFSET <= i < WEAPON_OFFSET + WEAPON_SIZE * WEAPON_SLOTS {
            let k = (i - WEAPON_OFFSET) / (WEAPON_SIZE as int);
            assert(0 <= k < WEAPON_SLOTS);
            assert(pb.weapon[k] == weapon_at(b, k));
            assert(pe.weapon[k] == weapon_at(e, k));
            lemma_weapon_bytes(b, e, k);
        } else if INVENTORY_OFFSET <= i < INVENTORY_OFFSET + 4 * INVENTORY_SLOTS {
            let k = (i - INVENTORY_OFFSET) / 4;
            assert(0 <= k < INVENTORY_SLOTS);
            assert(pb.inventory[k] == item_at(b, k));
            assert(pe.inventory[k] == item_at(e, k));
            lemma_i32_field_bytes(b, e, INVENTORY_OFFSET + 4 * k);
        } else if TELEPORTER_OFFSET <= i < TELEPORTER_OFFSET + TELEPORTER_SIZE * TELEPORTER_SLOTS {
            let k = (i - TELEPORTER_OFFSET) / (TELEPORTER_SIZE as int);
            assert(0 <= k < TELEPORTER_SLOTS);
            assert(pb.teleporter[k] == teleporter_at(b, k));
            assert(pe.teleporter[k] == teleporter_at(e, k));
            lemma_teleporter_bytes(b, e, k);
        }
    }
    assert(e =~= b);
}

/// Encoding the unedited decode of a valid buffer into a copy of that
/// buffer gives back the same bytes.
pub proof fn lemma_round_trip(b: Seq<u8>, e: Seq<u8>)
    requires
        valid_profile(b),
        encodes(b, profile_of(b), e),
    ensures
        e == b,
{
    lemma_fields_determine_bytes(b, e);
}

/// Encoding one profile into one buffer has a single possible outcome.
pub proof fn lemma_encode_deterministic(b: Seq<u8>, p: ProfileModel, e1: Seq<u8>, e2: Seq<u8>)
    requires
        b.len() >= PROFILE_MIN_LEN,
        encodes(b, p, e1),
        encodes(b, p, e2),
    ensures
        e1 == e2,
{
    lemma_fields_determine_bytes(e1, e2);
}

/// Encoding a decoded profile in which only `health` was edited changes
/// only the two health bytes of the buffer.
pub proof fn lemma_health_edit_is_local(b: Seq<u8>, health: i16, e: Seq<u8>)
    requires
        valid_profile(b),
        encodes(b, ProfileModel { health, ..profile_of(b) }, e),
    ensures
        forall|i: int|
            0 <= i < b.len() && !(HEALTH_OFFSET <= i < HEALTH_OFFSET + 2) ==> e[i] == b[i],
{
    let h = HEALTH_OFFSET as int;
    let c = b.update(h, e[h]).update(h + 1, e[h + 1]);
    let pb = profile_of(b);
    let pc = profile_of(c);
    assert forall|k: int| 0 <= k < WEAPON_SLOTS implies weapon_at(c, k) == weapon_at(b, k) by {}
    assert forall|k: int| 0 <= k < INVENTORY_SLOTS implies item_at(c, k) == item_at(b, k) by {}
    assert forall|k: int| 0 <= k < TELEPORTER_SLOTS implies teleporter_at(c, k) == teleporter_at(
        b,
        k,
    ) by {}
    assert(pc.weapon =~= pb.weapon);
    assert(pc.inventory =~= pb.inventory);
    assert(pc.teleporter =~= pb.teleporter);
    assert(le_i16(c, h) == le_i16(e, h));
    assert(pc == profile_of(e));
    assert forall|i: int| 0 <= i < c.len() && !field_byte(i) implies #[trigger] e[i] == c[i] by {
        assert(e[i] == b[i]);
    }
    lemma_fields_determine_bytes(c, e);
}

} // verus!
