use reflect::meta::{Field, FieldMeta, Layout, Struct, StructMeta, Type, Value, Visibility};
use reflect::registry::{registered_map, RegistryError};

fn value(ty_id: u64, name: &str, size: usize, align: usize) -> Type {
    Type::Value(Value { ty_id, name: name.to_string(), layout: Layout { size, align } })
}

fn field(ty_id: u64, name: &str, offset: usize, vis: Visibility) -> Field {
    Field { ty_id, name: name.to_string(), meta: FieldMeta { meta: vec![] }, offset, vis }
}

fn strukt(
    ty_id: u64,
    name: &str,
    meta: Vec<String>,
    size: usize,
    align: usize,
    vis: Visibility,
    fields: Vec<Field>,
) -> Type {
    Type::Struct(Struct {
        ty_id,
        name: name.to_string(),
        meta: StructMeta { meta },
        layout: Layout { size, align },
        vis,
        fields,
    })
}

const U16_ID: u64 = 1;
const U8_ID: u64 = 2;
const BAR_ID: u64 = 3;
const FOO_ID: u64 = 4;

fn foo_world() -> Vec<Type> {
    vec![
        value(U16_ID, "u16", 2, 2),
        value(U8_ID, "u8", 1, 1),
        strukt(BAR_ID, "Bar", vec!["repr(C)".to_string()], 0, 1, Visibility::Pub, vec![]),
        strukt(
            FOO_ID,
            "reflect::tests::struct_meta_matches_expected::Foo",
            vec!["repr(C)".to_string()],
            4,
            2,
            Visibility::Pub,
            vec![
                field(U16_ID, "foo", 0, Visibility::Private),
                field(U8_ID, "bar", 2, Visibility::Pub),
                field(BAR_ID, "baz", 3, Visibility::PubSuper),
                field(BAR_ID, "qux", 3, Visibility::PubCrate),
            ],
        ),
    ]
}

#[test]
fn struct_meta_matches_expected() {
    let reg = registered_map(foo_world()).unwrap();

    let fields = [
        Field {
            ty_id: U16_ID,
            name: "foo".to_string(),
            meta: FieldMeta { meta: vec![] },
            offset: 0,
            vis: Visibility::Private,
        },
        Field {
            ty_id: U8_ID,
            name: "bar".to_string(),
            meta: FieldMeta { meta: vec![] },
            offset: 2,
            vis: Visibility::Pub,
        },
        Field {
            ty_id: BAR_ID,
            name: "baz".to_string(),
            meta: FieldMeta { meta: vec![] },
            offset: 3,
            vis: Visibility::PubSuper,
        },
        Field {
            ty_id: BAR_ID,
            name: "qux".to_string(),
            meta: FieldMeta { meta: vec![] },
            offset: 3,
            vis: Visibility::PubCrate,
        },
    ];

    let expected = Type::Struct(Struct {
        ty_id: FOO_ID,
        name: "reflect::tests::struct_meta_matches_expected::Foo".to_string(),
        meta: StructMeta { meta: vec!["repr(C)".to_string()] },
        layout: Layout { size: 4, align: 2 },
        vis: Visibility::Pub,
        fields: fields.to_vec(),
    });

    assert_eq!(*reg.get(FOO_ID).unwrap(), expected);
}

#[test]
fn struct_scenario_three_fields() {
    // A struct `Foo` with a 16-bit private field at offset 0, an 8-bit
    // public field at offset 2, an empty-struct field with restricted
    // visibility at offset 3, total size 4, alignment 2.
    let types = vec![
        value(U16_ID, "u16", 2, 2),
        value(U8_ID, "u8", 1, 1),
        strukt(BAR_ID, "EmptyStruct", vec![], 0, 1, Visibility::Pub, vec![]),
        strukt(
            FOO_ID,
            "Foo",
            vec![],
            4,
            2,
            Visibility::Pub,
            vec![
                field(U16_ID, "foo", 0, Visibility::Private),
                field(U8_ID, "bar", 2, Visibility::Pub),
                field(BAR_ID, "baz", 3, Visibility::PubSuper),
            ],
        ),
    ];
    let reg = registered_map(types).unwrap();
    let foo = reg.get(FOO_ID).unwrap().as_struct().unwrap();
    assert_eq!(foo.name, "Foo");
    assert_eq!(foo.layout, Layout { size: 4, align: 2 });
    assert_eq!(foo.fields.len(), 3);
    assert_eq!(foo.fields[0].name, "foo");
    assert_eq!(foo.fields[0].offset, 0);
    assert_eq!(foo.fields[0].vis, Visibility::Private);
    assert_eq!(foo.fields[1].name, "bar");
    assert_eq!(foo.fields[1].offset, 2);
    assert_eq!(foo.fields[1].vis, Visibility::Pub);
    assert_eq!(foo.fields[2].name, "baz");
    assert_eq!(foo.fields[2].offset, 3);
    assert_eq!(foo.fields[2].vis, Visibility::PubSuper);
}

#[test]
fn round_trip_lookup_yields_identical_descriptors() {
    let types = foo_world();
    let reg = registered_map(types.clone()).unwrap();
    assert_eq!(reg.entries().len(), types.len());
    for t in &types {
        let back = reg.get(t.id()).unwrap();
        assert_eq!(*back, *t);
    }
}

#[test]
fn shuffled_slots_give_the_same_registry() {
    let types = foo_world();
    let mut shuffled = foo_world();
    shuffled.reverse();
    shuffled.swap(0, 2);
    let reg1 = registered_map(types).unwrap();
    let reg2 = registered_map(shuffled).unwrap();
    for id in [U16_ID, U8_ID, BAR_ID, FOO_ID] {
        assert_eq!(reg1.get(id).unwrap(), reg2.get(id).unwrap());
    }
    assert_eq!(reg1.get(99), None);
    assert_eq!(reg2.get(99), None);
}

#[test]
fn dangling_field_reference_fails_validation() {
    // `Foo` references identity 77, which no descriptor carries.  The raw
    // collected sequence still holds the offending struct; only the
    // validated map refuses to exist.
    let types = vec![
        value(U16_ID, "u16", 2, 2),
        strukt(
            FOO_ID,
            "Foo",
            vec![],
            4,
            2,
            Visibility::Pub,
            vec![field(77, "ghostly", 0, Visibility::Private)],
        ),
    ];
    assert_eq!(types.len(), 2);
    assert!(types[1].as_struct().is_some());
    let err = registered_map(types).unwrap_err();
    assert_eq!(
        err,
        RegistryError::UnregisteredFieldType {
            struct_name: "Foo".to_string(),
            field_name: "ghostly".to_string(),
        }
    );
}

#[test]
fn duplicate_identity_fails_validation() {
    let types = vec![value(U16_ID, "u16", 2, 2), value(U16_ID, "u16_again", 2, 2)];
    let err = registered_map(types).unwrap_err();
    assert_eq!(err, RegistryError::DuplicateTypeId { ty_id: U16_ID });
}

#[test]
fn empty_collection_gives_empty_registry() {
    let reg = registered_map(vec![]).unwrap();
    assert_eq!(reg.entries().len(), 0);
    assert_eq!(reg.get(0), None);
}

#[test]
fn layout_bounded_accepts_fitting_fields() {
    let reg = registered_map(foo_world()).unwrap();
    assert!(reg.layout_bounded());
}

#[test]
fn layout_bounded_rejects_field_past_struct_end() {
    // A 4-byte field at offset 2 of a 4-byte struct sticks out past the
    // struct's end even though its offset is in range.
    let types = vec![
        value(U16_ID, "u32", 4, 4),
        strukt(
            FOO_ID,
            "Foo",
            vec![],
            4,
            4,
            Visibility::Pub,
            vec![field(U16_ID, "tail", 2, Visibility::Pub)],
        ),
    ];
    let reg = registered_map(types).unwrap();
    assert!(!reg.layout_bounded());
}
