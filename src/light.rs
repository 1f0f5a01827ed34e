//! Lights, rooms and the light-room association, with tri-state room patches.
use vstd::prelude::*;

verus! {

/// The state document of a light.
#[derive(Debug, Clone, Copy, PartialEq, Eq)]
pub struct LightState {
    pub on: bool,
    pub colour: Option<[u8; 3]>,
}

/// A stored light.
#[derive(Debug)]
pub struct Light {
    pub id: u128,
    pub name: String,
    pub state: LightState,
}

/// A stored room.
#[derive(Debug)]
pub struct Room {
    pub id: u128,
    pub name: String,
}

/// An association record: the light belongs to the room.
#[derive(Debug, Clone, Copy, PartialEq, Eq, Structural)]
pub struct RoomLight {
    pub room_id: u128,
    pub light_id: u128,
}

/// The mathematical value of a light.
pub ghost struct LightRow {
    pub id: u128,
    pub name: Seq<char>,
    pub state: LightState,
}

/// The mathematical value of a room.
pub ghost struct RoomRow {
    pub id: u128,
    pub name: Seq<char>,
}

impl View for Light {
    type V = LightRow;

    open spec fn view(&self) -> LightRow {
        LightRow { id: self.id, name: self.name@, state: self.state }
    }
}

impl View for Room {
    type V = RoomRow;

    open spec fn view(&self) -> RoomRow {
        RoomRow { id: self.id, name: self.name@ }
    }
}

/// An update of a light's optional room: leave it, clear it, or set it.
#[derive(Debug, Clone, Copy, PartialEq, Eq, Structural)]
pub enum RoomPatch {
    Unchanged,
    Clear,
    SetTo(u128),
}

impl RoomPatch {
    /// Reads a nested option: outer absence leaves the room unchanged, outer
    /// presence with inner absence clears it, and a value sets it.
    pub fn from_nested(room_id: Option<Option<u128>>) -> (r: RoomPatch)
        ensures
            room_id is None ==> r == RoomPatch::Unchanged,
            room_id == Some(None::<u128>) ==> r == RoomPatch::Clear,
            room_id matches Some(Some(x)) ==> r == RoomPatch::SetTo(x),
    {
        match room_id {
            None => RoomPatch::Unchanged,
            Some(None) => RoomPatch::Clear,
            Some(Some(x)) => RoomPatch::SetTo(x),
        }
    }
}

/// A room as presented with a light.
#[derive(Debug)]
pub struct RoomDto {
    pub id: u128,
    pub name: String,
}

/// A light merged with its room for presentation.
#[derive(Debug)]
pub struct LightDto {
    pub id: u128,
    pub name: String,
    pub state: LightState,
    pub room: Option<RoomDto>,
}

/// Why a light operation failed.
#[derive(Debug, Clone, Copy, PartialEq, Eq, Structural)]
pub enum LightError {
    /// No light has the identifier.
    NotFound,
    /// The identifier is already used.
    DuplicateId,
    /// The referenced room does not exist.
    ReferentialIntegrityError,
}

pub open spec fn has_light(lights: Seq<LightRow>, id: u128) -> bool {
    exists|i: int| 0 <= i < lights.len() && (#[trigger] lights[i]).id == id
}

pub open spec fn light_index(lights: Seq<LightRow>, id: u128) -> int {
    choose|i: int| 0 <= i < lights.len() && (#[trigger] lights[i]).id == id
}

pub open spec fn has_room(rooms: Seq<RoomRow>, id: u128) -> bool {
    exists|i: int| 0 <= i < rooms.len() && (#[trigger] rooms[i]).id == id
}

pub open spec fn room_index(rooms: Seq<RoomRow>, id: u128) -> int {
    choose|i: int| 0 <= i < rooms.len() && (#[trigger] rooms[i]).id == id
}

pub open spec fn linked(links: Seq<RoomLight>, light: u128) -> bool {
    exists|i: int| 0 <= i < links.len() && (#[trigger] links[i]).light_id == light
}

/// The room of a light, by its association record if it has one.
pub open spec fn room_of(links: Seq<RoomLight>, light: u128) -> Option<u128> {
    if linked(links, light) {
        Some(links[choose|i: int| 0 <= i < links.len() && (#[trigger] links[i]).light_id == light].room_id)
    } else {
        None
    }
}

/// The association records that do not belong to `light`, in order.
pub open spec fn without_light(links: Seq<RoomLight>, light: u128) -> Seq<RoomLight>
    decreases links.len(),
{
    if links.len() == 0 {
        Seq::empty()
    } else {
        let rest = without_light(links.drop_last(), light);
        if links.last().light_id == light {
            rest
        } else {
            rest.push(links.last())
        }
    }
}

/// The association records after a room patch of `light`.
pub open spec fn patched_links(links: Seq<RoomLight>, light: u128, patch: RoomPatch) -> Seq<RoomLight> {
    match patch {
        RoomPatch::Unchanged => links,
        RoomPatch::Clear => without_light(links, light),
        RoomPatch::SetTo(room) => without_light(links, light).push(RoomLight { room_id: room, light_id: light }),
    }
}

/// No two lights, and no two rooms, share an identifier.
pub open spec fn ids_unique(lights: Seq<LightRow>, rooms: Seq<RoomRow>) -> bool {
    &&& forall|i: int, j: int|
        0 <= i < lights.len() && 0 <= j < lights.len() && i != j ==> (#[trigger] lights[i]).id
            != (#[trigger] lights[j]).id
    &&& forall|i: int, j: int|
        0 <= i < rooms.len() && 0 <= j < rooms.len() && i != j ==> (#[trigger] rooms[i]).id
            != (#[trigger] rooms[j]).id
}

/// Every light has at most one association record.
pub open spec fn one_room_per_light(links: Seq<RoomLight>) -> bool {
    forall|i: int, j: int|
        0 <= i < links.len() && 0 <= j < links.len() && (#[trigger] links[i]).light_id
            == (#[trigger] links[j]).light_id ==> i == j
}

/// Every association record points at an existing light and an existing room.
pub open spec fn links_resolve(links: Seq<RoomLight>, lights: Seq<LightRow>, rooms: Seq<RoomRow>) -> bool {
    forall|i: int|
        0 <= i < links.len() ==> has_light(lights, (#[trigger] links[i]).light_id) && has_room(
            rooms,
            links[i].room_id,
        )
}

/// The records kept for other lights have no record of `light`, are records
/// of the input, keep every other light's records, and keep at most one
/// record per light.
pub proof fn lemma_without_light(links: Seq<RoomLight>, light: u128)
    ensures
        forall|i: int|
            0 <= i < without_light(links, light).len() ==> (#[trigger] without_light(links, light)[i]).light_id
                != light,
        forall|i: int|
            0 <= i < without_light(links, light).len() ==> links.contains(
                #[trigger] without_light(links, light)[i],
            ),
        forall|p: RoomLight| #[trigger] links.contains(p) && p.light_id != light ==> without_light(links, light).contains(p),
        one_room_per_light(links) ==> one_room_per_light(without_light(links, light)),
    decreases links.len(),
{
    if links.len() > 0 {
        let init = links.drop_last();
        lemma_without_light(init, light);
        let rest = without_light(init, light);
        let w = without_light(links, light);
        assert forall|i: int| 0 <= i < w.len() implies links.contains(#[trigger] w[i]) by {
            if i < rest.len() {
                assert(w[i] == rest[i]);
                assert(init.contains(rest[i]));
                let j = choose|j: int| 0 <= j < init.len() && init[j] == rest[i];
                assert(links[j] == init[j]);
            } else {
                assert(links[links.len() - 1] == w[i]);
            }
        }
        assert forall|p: RoomLight| #[trigger] links.contains(p) && p.light_id != light implies w.contains(p) by {
            let j = choose|j: int| 0 <= j < links.len() && links[j] == p;
            if j < links.len() - 1 {
                assert(init[j] == p);
                assert(init.contains(p));
                let k = choose|k: int| 0 <= k < rest.len() && rest[k] == p;
                assert(w[k] == p);
            } else {
                assert(w[w.len() - 1] == p);
            }
        }
        if one_room_per_light(links) {
            assert(one_room_per_light(init)) by {
                assert forall|i: int, j: int|
                    0 <= i < init.len() && 0 <= j < init.len() && (#[trigger] init[i]).light_id
                        == (#[trigger] init[j]).light_id implies i == j by {
                    assert(init[i] == links[i] && init[j] == links[j]);
                }
            }
            if links.last().light_id != light {
                assert forall|i: int, j: int|
                    0 <= i < w.len() && 0 <= j < w.len() && (#[trigger] w[i]).light_id
                        == (#[trigger] w[j]).light_id implies i == j by {
                    if i < rest.len() && j < rest.len() {
                        assert(w[i] == rest[i] && w[j] == rest[j]);
                    } else if i < rest.len() || j < rest.len() {
                        let k = if i < rest.len() { i } else { j };
                        assert(w[k] == rest[k]);
                        assert(init.contains(rest[k]));
                        let m = choose|m: int| 0 <= m < init.len() && init[m] == rest[k];
                        assert(links[m] == init[m]);
                        assert(links[links.len() - 1] == links.last());
                    }
                }
            }
        }
    }
}

/// After a patch that sets the room, the light has exactly one association
/// record, and it points at the new room.
pub proof fn set_room_leaves_one_link(links: Seq<RoomLight>, light: u128, room: u128)
    ensures
        ({
            let after = patched_links(links, light, RoomPatch::SetTo(room));
            &&& after.last() == (RoomLight { room_id: room, light_id: light })
            &&& forall|i: int| 0 <= i < after.len() && (#[trigger] after[i]).light_id == light ==> i == after.len() - 1
            &&& room_of(after, light) == Some(room)
        }),
{
    lemma_without_light(links, light);
    let after = patched_links(links, light, RoomPatch::SetTo(room));
    let w = without_light(links, light);
    assert forall|i: int| 0 <= i < after.len() && (#[trigger] after[i]).light_id == light implies i == after.len() - 1 by {
        if i < w.len() {
            assert(after[i] == w[i]);
        }
    }
    assert(after[after.len() - 1].light_id == light);
}

/// After a patch that clears the room, the light has no association record.
pub proof fn clear_room_leaves_no_link(links: Seq<RoomLight>, light: u128)
    ensures
        forall|i: int|
            0 <= i < patched_links(links, light, RoomPatch::Clear).len() ==> (#[trigger] patched_links(
                links,
                light,
                RoomPatch::Clear,
            )[i]).light_id != light,
        room_of(patched_links(links, light, RoomPatch::Clear), light) is None,
{
    lemma_without_light(links, light);
}


/// The state of a newly created light: off, with no colour.
pub open spec fn initial_state() -> LightState {
    LightState { on: false, colour: None }
}

/// Whether `d` presents the light `id`: its fields, and its room (by the
/// light's association record) with the room's name.
pub open spec fn presents(
    d: LightDto,
    lights: Seq<LightRow>,
    rooms: Seq<RoomRow>,
    links: Seq<RoomLight>,
    id: u128,
) -> bool {
    let l = lights[light_index(lights, id)];
    &&& has_light(lights, id)
    &&& d.id == id
    &&& d.name@ == l.name
    &&& d.state == l.state
    &&& match room_of(links, id) {
        None => d.room is None,
        Some(r) => d.room matches Some(rd) && rd.id == r && has_room(rooms, r) && rd.name@
            == rooms[room_index(rooms, r)].name,
    }
}

/// The store of lights, rooms and association records.
#[derive(Debug)]
pub struct LightStore {
    lights: Vec<Light>,
    rooms: Vec<Room>,
    room_lights: Vec<RoomLight>,
}

impl LightStore {
    pub closed spec fn lights(&self) -> Seq<LightRow> {
        self.lights@.map_values(|l: Light| l@)
    }

    pub closed spec fn rooms(&self) -> Seq<RoomRow> {
        self.rooms@.map_values(|r: Room| r@)
    }

    pub closed spec fn links(&self) -> Seq<RoomLight> {
        self.room_lights@
    }

    pub open spec fn wf(&self) -> bool {
        &&& ids_unique(self.lights(), self.rooms())
        &&& one_room_per_light(self.links())
        &&& links_resolve(self.links(), self.lights(), self.rooms())
    }

    pub fn new() -> (r: LightStore)
        ensures
            r.wf(),
            r.lights() == Seq::<LightRow>::empty(),
            r.rooms() == Seq::<RoomRow>::empty(),
            r.links() == Seq::<RoomLight>::empty(),
    {
        let r = LightStore { lights: Vec::new(), rooms: Vec::new(), room_lights: Vec::new() };
        assert(r.lights() =~= Seq::<LightRow>::empty());
        assert(r.rooms() =~= Seq::<RoomRow>::empty());
        r
    }

    fn find_light(&self, id: u128) -> (r: Option<usize>)
        requires
            self.wf(),
        ensures
            r is None <==> !has_light(self.lights(), id),
            r matches Some(i) ==> i < self.lights().len() && i == light_index(self.lights(), id)
                && self.lights()[i as int].id == id,
    {
        let mut i: usize = 0;
        while i < self.lights.len()
            invariant
                i <= self.lights@.len(),
                self.wf(),
                forall|k: int| 0 <= k < i ==> (#[trigger] self.lights()[k]).id != id,
            decreases self.lights.len() - i,
        {
            if self.lights[i].id == id {
                assert(self.lights()[i as int].id == id);
                let ghost j = light_index(self.lights(), id);
                assert(j == i);
                return Some(i);
            }
            i = i + 1;
        }
        None
    }

    fn find_room(&self, id: u128) -> (r: Option<usize>)
        requires
            self.wf(),
        ensures
            r is None <==> !has_room(self.rooms(), id),
            r matches Some(i) ==> i < self.rooms().len() && i == room_index(self.rooms(), id)
                && self.rooms()[i as int].id == id,
    {
        let mut i: usize = 0;
        while i < self.rooms.len()
            invariant
                i <= self.rooms@.len(),
                self.wf(),
                forall|k: int| 0 <= k < i ==> (#[trigger] self.rooms()[k]).id != id,
            decreases self.rooms.len() - i,
        {
            if self.rooms[i].id == id {
                assert(self.rooms()[i as int].id == id);
                let ghost j = room_index(self.rooms(), id);
                assert(j == i);
                return Some(i);
            }
            i = i + 1;
        }
        None
    }

    fn find_link(&self, light: u128) -> (r: Option<usize>)
        requires
            self.wf(),
        ensures
            r is None <==> room_of(self.links(), light) is None,
            r matches Some(i) ==> i < self.links().len() && room_of(self.links(), light) == Some(
                self.links()[i as int].room_id,
            ),
    {
        let mut i: usize = 0;
        while i < self.room_lights.len()
            invariant
                i <= self.room_lights@.len(),
                self.wf(),
                forall|k: int| 0 <= k < i ==> (#[trigger] self.links()[k]).light_id != light,
            decreases self.room_lights.len() - i,
        {
            if self.room_lights[i].light_id == light {
                assert(self.links()[i as int].light_id == light);
                let ghost j = choose|j: int|
                    0 <= j < self.links().len() && (#[trigger] self.links()[j]).light_id == light;
                assert(j == i);
                return Some(i);
            }
            i = i + 1;
        }
        None
    }

    /// The presentation of the light at position `idx`.
    fn present(&self, idx: usize) -> (r: LightDto)
        requires
            self.wf(),
            idx < self.lights().len(),
        ensures
            presents(r, self.lights(), self.rooms(), self.links(), self.lights()[idx as int].id),
    {
        let id = self.lights[idx].id;
        assert(self.lights()[idx as int].id == id);
        let ghost j = light_index(self.lights(), id);
        assert(j == idx);
        let room = match self.find_link(id) {
            None => None,
            Some(k) => {
                let room_id = self.room_lights[k].room_id;
                assert(has_room(self.rooms(), self.links()[k as int].room_id));
                match self.find_room(room_id) {
                    Some(j) => Some(RoomDto { id: room_id, name: self.rooms[j].name.clone() }),
                    None => None,
                }
            },
        };
        LightDto { id, name: self.lights[idx].name.clone(), state: self.lights[idx].state, room }
    }

    /// Adds a room; an identifier already used by a room is refused.
    pub fn add_room(&mut self, id: u128, name: &str) -> (r: Result<(), LightError>)
        requires
            old(self).wf(),
        ensures
            final(self).wf(),
            final(self).lights() == old(self).lights(),
            final(self).links() == old(self).links(),
            has_room(old(self).rooms(), id) ==> r == Err::<(), LightError>(LightError::DuplicateId)
                && final(self).rooms() == old(self).rooms(),
            !has_room(old(self).rooms(), id) ==> r is Ok && final(self).rooms() == old(self).rooms().push(
                RoomRow { id, name: name@ },
            ),
    {
        if self.find_room(id).is_some() {
            return Err(LightError::DuplicateId);
        }
        let ghost before = self.rooms();
        self.rooms.push(Room { id, name: name.to_owned() });
        assert(self.rooms() =~= before.push(RoomRow { id, name: name@ }));
        assert forall|i: int| 0 <= i < self.links().len() implies has_room(self.rooms(), (#[trigger] self.links()[i]).room_id) by {
            let k = choose|k: int| 0 <= k < before.len() && (#[trigger] before[k]).id == self.links()[i].room_id;
            assert(self.rooms()[k] == before[k]);
        }
        Ok(())
    }

    /// Creates a light, switched off with no colour, optionally in a room. A
    /// used identifier, or a room that does not exist, is refused before
    /// anything is stored.
    pub fn create_light(&mut self, id: u128, name: &str, room_id: Option<u128>) -> (r: Result<LightDto, LightError>)
        requires
            old(self).wf(),
        ensures
            final(self).wf(),
            has_light(old(self).lights(), id) ==> r == Err::<LightDto, LightError>(LightError::DuplicateId),
            !has_light(old(self).lights(), id) && (room_id matches Some(x) && !has_room(old(self).rooms(), x))
                ==> r == Err::<LightDto, LightError>(LightError::ReferentialIntegrityError),
            r is Err ==> final(self).lights() == old(self).lights() && final(self).rooms() == old(self).rooms()
                && final(self).links() == old(self).links(),
            !has_light(old(self).lights(), id) && !(room_id matches Some(x) && !has_room(old(self).rooms(), x))
                ==> r is Ok,
            r matches Ok(d) ==> {
                &&& final(self).lights() == old(self).lights().push(LightRow { id, name: name@, state: initial_state() })
                &&& final(self).rooms() == old(self).rooms()
                &&& final(self).links() == match room_id {
                    Some(x) => old(self).links().push(RoomLight { room_id: x, light_id: id }),
                    None => old(self).links(),
                }
                &&& presents(d, final(self).lights(), final(self).rooms(), final(self).links(), id)
            },
    {
        if self.find_light(id).is_some() {
            return Err(LightError::DuplicateId);
        }
        if let Some(x) = room_id {
            if self.find_room(x).is_none() {
                return Err(LightError::ReferentialIntegrityError);
            }
        }
        let ghost lights0 = self.lights();
        let ghost links0 = self.links();
        self.lights.push(Light { id, name: name.to_owned(), state: LightState { on: false, colour: None } });
        assert(self.lights() =~= lights0.push(LightRow { id, name: name@, state: initial_state() }));
        assert(self.lights()[lights0.len() as int].id == id);
        assert forall|x: u128| has_light(lights0, x) implies has_light(self.lights(), x) by {
            let k = choose|k: int| 0 <= k < lights0.len() && (#[trigger] lights0[k]).id == x;
            assert(self.lights()[k] == lights0[k]);
        }
        assert(!linked(links0, id)) by {
            if linked(links0, id) {
                let k = choose|k: int| 0 <= k < links0.len() && (#[trigger] links0[k]).light_id == id;
                assert(has_light(lights0, links0[k].light_id));
            }
        }
        if let Some(x) = room_id {
            self.room_lights.push(RoomLight { room_id: x, light_id: id });
            assert forall|i: int, j: int|
                0 <= i < self.links().len() && 0 <= j < self.links().len() && (#[trigger] self.links()[i]).light_id
                    == (#[trigger] self.links()[j]).light_id implies i == j by {
                if i < links0.len() && j < links0.len() {
                    assert(self.links()[i] == links0[i] && self.links()[j] == links0[j]);
                } else if i < links0.len() {
                    assert(self.links()[i] == links0[i]);
                } else if j < links0.len() {
                    assert(self.links()[j] == links0[j]);
                }
            }
        }
        let n = self.lights.len() - 1;
        Ok(self.present(n))
    }

    /// Replaces the light at `idx` by one with the given name and state,
    /// keeping its identifier.
    fn replace_light(&mut self, idx: usize, name: String, state: LightState)
        requires
            old(self).wf(),
            idx < old(self).lights().len(),
        ensures
            final(self).wf(),
            final(self).lights() == old(self).lights().update(
                idx as int,
                LightRow { id: old(self).lights()[idx as int].id, name: name@, state },
            ),
            final(self).rooms() == old(self).rooms(),
            final(self).links() == old(self).links(),
            forall|x: u128| has_light(final(self).lights(), x) == has_light(old(self).lights(), x),
            forall|x: u128|
                has_light(old(self).lights(), x) ==> light_index(final(self).lights(), x) == light_index(
                    old(self).lights(),
                    x,
                ),
    {
        let ghost before = self.lights();
        let id = self.lights[idx].id;
        self.lights.set(idx, Light { id, name, state });
        assert(self.lights() =~= before.update(idx as int, LightRow { id, name: name@, state }));
        assert forall|x: u128| has_light(self.lights(), x) == has_light(before, x) by {
            if has_light(before, x) {
                let k = choose|k: int| 0 <= k < before.len() && (#[trigger] before[k]).id == x;
                assert(self.lights()[k].id == x);
            }
            if has_light(self.lights(), x) {
                let k = choose|k: int| 0 <= k < before.len() && (#[trigger] self.lights()[k]).id == x;
                assert(before[k].id == x);
            }
        }
        assert forall|x: u128| has_light(before, x) implies light_index(self.lights(), x) == light_index(before, x) by {
            let a = light_index(self.lights(), x);
            let b = light_index(before, x);
            assert(self.lights()[a].id == x);
            assert(before[a].id == self.lights()[a].id);
        }
    }

    /// Sets the state document of light `id`.
    pub fn set_light_state(&mut self, id: u128, state: LightState) -> (r: Result<LightDto, LightError>)
        requires
            old(self).wf(),
        ensures
            final(self).wf(),
            r is Err <==> !has_light(old(self).lights(), id),
            r matches Err(e) ==> e == LightError::NotFound && final(self).lights() == old(self).lights(),
            final(self).rooms() == old(self).rooms(),
            final(self).links() == old(self).links(),
            r matches Ok(d) ==> {
                let i = light_index(old(self).lights(), id);
                &&& final(self).lights() == old(self).lights().update(
                    i,
                    LightRow { id, name: old(self).lights()[i].name, state },
                )
                &&& presents(d, final(self).lights(), final(self).rooms(), final(self).links(), id)
            },
    {
        let idx = match self.find_light(id) {
            Some(i) => i,
            None => return Err(LightError::NotFound),
        };
        let name = self.lights[idx].name.clone();
        self.replace_light(idx, name, state);
        Ok(self.present(idx))
    }

    /// Applies a name patch and a room patch to light `id`. An absent name
    /// leaves the name; a room patch leaves, clears or replaces the light's
    /// association record. A missing light, or a room to set that does not
    /// exist, is refused before anything changes.
    pub fn update_light(&mut self, id: u128, name: Option<&str>, room: RoomPatch) -> (r: Result<LightDto, LightError>)
        requires
            old(self).wf(),
        ensures
            final(self).wf(),
            !has_light(old(self).lights(), id) ==> r == Err::<LightDto, LightError>(LightError::NotFound),
            has_light(old(self).lights(), id) && (room matches RoomPatch::SetTo(x) && !has_room(old(self).rooms(), x))
                ==> r == Err::<LightDto, LightError>(LightError::ReferentialIntegrityError),
            has_light(old(self).lights(), id) && !(room matches RoomPatch::SetTo(x) && !has_room(old(self).rooms(), x))
                ==> r is Ok,
            r is Err ==> final(self).lights() == old(self).lights() && final(self).links() == old(self).links(),
            final(self).rooms() == old(self).rooms(),
            r matches Ok(d) ==> {
                let i = light_index(old(self).lights(), id);
                let l = old(self).lights()[i];
                &&& final(self).lights() == old(self).lights().update(
                    i,
                    LightRow {
                        id,
                        name: match name {
                            Some(n) => n@,
                            None => l.name,
                        },
                        state: l.state,
                    },
                )
                &&& final(self).links() == patched_links(old(self).links(), id, room)
                &&& presents(d, final(self).lights(), final(self).rooms(), final(self).links(), id)
            },
    {
        let idx = match self.find_light(id) {
            Some(i) => i,
            None => return Err(LightError::NotFound),
        };
        if let RoomPatch::SetTo(x) = room {
            if self.find_room(x).is_none() {
                return Err(LightError::ReferentialIntegrityError);
            }
        }
        let new_name = match name {
            Some(n) => n.to_owned(),
            None => self.lights[idx].name.clone(),
        };
        let state = self.lights[idx].state;
        self.replace_light(idx, new_name, state);
        match room {
            RoomPatch::Unchanged => {},
            _ => {
                let ghost links0 = self.links();
                let mut kept: Vec<RoomLight> = Vec::new();
                let mut i: usize = 0;
                while i < self.room_lights.len()
                    invariant
                        i <= self.room_lights@.len(),
                        self.room_lights@ == links0,
                        kept@ == without_light(links0.subrange(0, i as int), id),
                    decreases self.room_lights.len() - i,
                {
                    let l = self.room_lights[i];
                    assert(links0.subrange(0, i + 1).drop_last() =~= links0.subrange(0, i as int));
                    if l.light_id != id {
                        kept.push(l);
                    }
                    i = i + 1;
                }
                assert(links0.subrange(0, links0.len() as int) =~= links0);
                proof {
                    lemma_without_light(links0, id);
                }
                self.room_lights = kept;
                if let RoomPatch::SetTo(x) = room {
                    let ghost w = self.links();
                    self.room_lights.push(RoomLight { room_id: x, light_id: id });
                    assert forall|i: int, j: int|
                        0 <= i < self.links().len() && 0 <= j < self.links().len() && (#[trigger] self.links()[i]).light_id
                            == (#[trigger] self.links()[j]).light_id implies i == j by {
                        if i < w.len() && j < w.len() {
                            assert(self.links()[i] == w[i] && self.links()[j] == w[j]);
                        } else if i < w.len() {
                            assert(self.links()[i] == w[i]);
                        } else if j < w.len() {
                            assert(self.links()[j] == w[j]);
                        }
                    }
                }
                assert forall|i: int| 0 <= i < self.links().len() implies has_light(self.lights(), (#[trigger] self.links()[i]).light_id)
                    && has_room(self.rooms(), self.links()[i].room_id) by {
                    let w = without_light(links0, id);
                    if i < w.len() {
                        assert(self.links()[i] == w[i]);
                        assert(links0.contains(w[i]));
                    } else {
                        assert(self.lights()[idx as int].id == id);
                    }
                }
            },
        }
        Ok(self.present(idx))
    }

    /// The light with identifier `id`, with its room.
    pub fn get_light(&self, id: u128) -> (r: Result<LightDto, LightError>)
        requires
            self.wf(),
        ensures
            r is Err <==> !has_light(self.lights(), id),
            r matches Err(e) ==> e == LightError::NotFound,
            r matches Ok(d) ==> presents(d, self.lights(), self.rooms(), self.links(), id),
    {
        match self.find_light(id) {
            Some(i) => Ok(self.present(i)),
            None => Err(LightError::NotFound),
        }
    }
}

} // verus!
