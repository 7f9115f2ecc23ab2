use wireproto::cursor::McCursor;
use wireproto::resource_location::ResourceLocation;

#[test]
fn basic_resource_location() {
    let r = ResourceLocation::new("abcdef:ghijkl");
    assert_eq!(r.namespace, "abcdef");
    assert_eq!(r.path, "ghijkl");
}

#[test]
fn no_namespace() {
    let r = ResourceLocation::new("azalea");
    assert_eq!(r.namespace, "minecraft");
    assert_eq!(r.path, "azalea");
}

#[test]
fn colon_start() {
    let r = ResourceLocation::new(":azalea");
    assert_eq!(r.namespace, "minecraft");
    assert_eq!(r.path, "azalea");
}

#[test]
fn colon_end() {
    let r = ResourceLocation::new("azalea:");
    assert_eq!(r.namespace, "azalea");
    assert_eq!(r.path, "");
}

#[test]
fn azbuf_resource_location() {
    let mut buf = Vec::new();
    ResourceLocation::new("minecraft:dirt").azalea_write(&mut buf);

    let mut buf = McCursor::new(buf);

    assert_eq!(
        ResourceLocation::azalea_read(&mut buf).unwrap(),
        ResourceLocation::new("minecraft:dirt")
    );
}

#[test]
fn to_resource_string_joins_with_colon() {
    let r = ResourceLocation::new("minecraft:dirt");
    assert_eq!(r.to_resource_string(), "minecraft:dirt");
}
