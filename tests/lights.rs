use homehub::light::{LightError, LightState, LightStore, RoomPatch};

fn store() -> LightStore {
    let mut s = LightStore::new();
    s.add_room(1, "Kitchen").unwrap();
    s.add_room(2, "Hall").unwrap();
    s
}

#[test]
fn create_light_in_room() {
    let mut s = store();
    let d = s.create_light(10, "Lamp", Some(1)).unwrap();
    assert_eq!(d.id, 10);
    assert_eq!(d.name, "Lamp");
    assert_eq!(d.state, LightState { on: false, colour: None });
    let room = d.room.unwrap();
    assert_eq!(room.id, 1);
    assert_eq!(room.name, "Kitchen");
}

#[test]
fn create_light_without_room() {
    let mut s = store();
    let d = s.create_light(10, "Lamp", None).unwrap();
    assert!(d.room.is_none());
}

#[test]
fn create_light_refusals() {
    let mut s = store();
    assert_eq!(s.create_light(10, "Lamp", Some(99)).unwrap_err(), LightError::ReferentialIntegrityError);
    assert_eq!(s.get_light(10).unwrap_err(), LightError::NotFound);
    s.create_light(10, "Lamp", None).unwrap();
    assert_eq!(s.create_light(10, "Other", None).unwrap_err(), LightError::DuplicateId);
    assert_eq!(s.add_room(1, "Again").unwrap_err(), LightError::DuplicateId);
}

#[test]
fn reassign_room_replaces_association() {
    let mut s = store();
    s.create_light(10, "Lamp", Some(1)).unwrap();
    let d = s.update_light(10, None, RoomPatch::SetTo(2)).unwrap();
    assert_eq!(d.room.as_ref().unwrap().id, 2);
    assert_eq!(d.room.unwrap().name, "Hall");
    let again = s.get_light(10).unwrap();
    assert_eq!(again.room.unwrap().id, 2);
}

#[test]
fn clear_room_removes_association() {
    let mut s = store();
    s.create_light(10, "Lamp", Some(1)).unwrap();
    let d = s.update_light(10, None, RoomPatch::Clear).unwrap();
    assert!(d.room.is_none());
    assert!(s.get_light(10).unwrap().room.is_none());
    let d = s.update_light(10, None, RoomPatch::Clear).unwrap();
    assert!(d.room.is_none());
}

#[test]
fn unchanged_room_keeps_association_and_renames() {
    let mut s = store();
    s.create_light(10, "Lamp", Some(1)).unwrap();
    let d = s.update_light(10, Some("Desk lamp"), RoomPatch::Unchanged).unwrap();
    assert_eq!(d.name, "Desk lamp");
    assert_eq!(d.room.unwrap().id, 1);
    let d = s.update_light(10, None, RoomPatch::Unchanged).unwrap();
    assert_eq!(d.name, "Desk lamp");
}

#[test]
fn update_to_missing_room_changes_nothing() {
    let mut s = store();
    s.create_light(10, "Lamp", Some(1)).unwrap();
    let e = s.update_light(10, Some("New"), RoomPatch::SetTo(77)).unwrap_err();
    assert_eq!(e, LightError::ReferentialIntegrityError);
    let d = s.get_light(10).unwrap();
    assert_eq!(d.name, "Lamp");
    assert_eq!(d.room.unwrap().id, 1);
    assert_eq!(s.update_light(99, None, RoomPatch::Clear).unwrap_err(), LightError::NotFound);
}

#[test]
fn other_lights_keep_their_rooms() {
    let mut s = store();
    s.create_light(10, "A", Some(1)).unwrap();
    s.create_light(11, "B", Some(1)).unwrap();
    s.update_light(10, None, RoomPatch::SetTo(2)).unwrap();
    assert_eq!(s.get_light(11).unwrap().room.unwrap().id, 1);
    s.update_light(11, None, RoomPatch::Clear).unwrap();
    assert_eq!(s.get_light(10).unwrap().room.unwrap().id, 2);
}

#[test]
fn set_state_keeps_name_and_room() {
    let mut s = store();
    s.create_light(10, "Lamp", Some(2)).unwrap();
    let st = LightState { on: true, colour: Some([255, 128, 0]) };
    let d = s.set_light_state(10, st).unwrap();
    assert_eq!(d.state, st);
    assert_eq!(d.name, "Lamp");
    assert_eq!(d.room.unwrap().id, 2);
    assert_eq!(s.set_light_state(3, st).unwrap_err(), LightError::NotFound);
}

#[test]
fn nested_option_patches() {
    assert_eq!(RoomPatch::from_nested(None), RoomPatch::Unchanged);
    assert_eq!(RoomPatch::from_nested(Some(None)), RoomPatch::Clear);
    assert_eq!(RoomPatch::from_nested(Some(Some(4))), RoomPatch::SetTo(4));
}
