use ethel::AttributeFormat;
use ethel::AttributeKind;
use ethel::BufferKind;
use ethel::BufferUsage;
use ethel::CreateBuffers;
use ethel::CreateLayout;
use ethel::GlBuffer;
use ethel::GlPropertyEnum;
use ethel::LayoutBuffer;
use ethel::StorageFlags;

#[test]
fn components_have_the_size_of_their_type() {
    assert_eq!(AttributeKind::Float.size_bytes(), 4);
    assert_eq!(AttributeKind::Byte.size_bytes(), 1);
    assert_eq!(AttributeKind::Integer.size_bytes(), 4);
    assert_eq!(AttributeKind::IntegerSigned.size_bytes(), 4);
    assert_eq!(AttributeKind::ByteSigned.size_bytes(), 1);
    assert_eq!(AttributeKind::default(), AttributeKind::Float);
}

#[test]
fn an_attribute_is_as_large_as_its_components() {
    let attribute = LayoutBuffer::default().with_type(AttributeKind::Float, 3);
    assert_eq!(attribute.size_bytes(), 12);
    assert!(!attribute.normalised);
    let colour = LayoutBuffer::default().with_type(AttributeKind::Byte, 4).normalised(true);
    assert_eq!(colour.size_bytes(), 4);
    assert!(colour.normalised);
    assert_eq!(LayoutBuffer::default().size_bytes(), 0);
    assert_eq!(LayoutBuffer::default().with_type(AttributeKind::Integer, 255).size_bytes(), 1020);
}

#[test]
fn properties_map_to_the_numbers_of_the_device() {
    assert_eq!(BufferUsage::StreamDraw.as_gl_enum(), 0x88E0);
    assert_eq!(BufferUsage::StreamRead.as_gl_enum(), 0x88E1);
    assert_eq!(BufferUsage::StreamCopy.as_gl_enum(), 0x88E2);
    assert_eq!(BufferUsage::StaticDraw.as_gl_enum(), 0x88E4);
    assert_eq!(BufferUsage::StaticRead.as_gl_enum(), 0x88E5);
    assert_eq!(BufferUsage::StaticCopy.as_gl_enum(), 0x88E6);
    assert_eq!(BufferUsage::DynamicDraw.as_gl_enum(), 0x88E8);
    assert_eq!(BufferUsage::DynamicRead.as_gl_enum(), 0x88E9);
    assert_eq!(BufferUsage::DynamicCopy.as_gl_enum(), 0x88EA);
    assert_eq!(BufferUsage::default(), BufferUsage::StaticDraw);

    assert_eq!(BufferKind::Array.as_gl_enum(), 0x8892);
    assert_eq!(BufferKind::Element.as_gl_enum(), 0x8893);
    assert_eq!(BufferKind::ShaderStorage { size: 64 }.as_gl_enum(), 0x90D2);
    assert_eq!(BufferKind::Uniform.as_gl_enum(), 0x8A11);

    assert_eq!(AttributeKind::Float.as_gl_enum(), 0x1406);
    assert_eq!(AttributeKind::Byte.as_gl_enum(), 0x1401);
    assert_eq!(AttributeKind::Integer.as_gl_enum(), 0x1405);
    assert_eq!(AttributeKind::IntegerSigned.as_gl_enum(), 0x1404);
    assert_eq!(AttributeKind::ByteSigned.as_gl_enum(), 0x1400);
}

#[test]
fn storage_flags_combine_the_mapping_bits() {
    assert_eq!(StorageFlags::Static.as_gl_enum(), 0);
    assert_eq!(StorageFlags::Dynamic.as_gl_enum(), 0x0100);
    assert_eq!(StorageFlags::Client.as_gl_enum(), 0x0200);
    assert_eq!(StorageFlags::Persistent { read: true, write: false }.as_gl_enum(), 0x0041);
    assert_eq!(StorageFlags::Persistent { read: false, write: true }.as_gl_enum(), 0x0042);
    assert_eq!(StorageFlags::Persistent { read: true, write: true }.as_gl_enum(), 0x0043);
    assert_eq!(StorageFlags::Coherent { read: true, write: false }.as_gl_enum(), 0x00C1);
    assert_eq!(StorageFlags::Coherent { read: false, write: true }.as_gl_enum(), 0x00C2);
    assert_eq!(StorageFlags::Coherent { read: true, write: true }.as_gl_enum(), 0x00C3);
    assert_eq!(StorageFlags::default(), StorageFlags::Static);
}

#[test]
fn buffers_are_described_one_after_the_other() {
    let layout = CreateLayout::new(2)
        .attribute(|attribute| attribute.with_type(AttributeKind::Float, 3))
        .attribute(|attribute| attribute.with_type(AttributeKind::Byte, 4).normalised(true));
    assert_eq!(layout.0.len(), 2);
    assert_eq!(layout.0[0].size_bytes(), 12);
    assert_eq!(layout.0[1].attribute_kind, AttributeKind::Byte);

    let buffers = CreateBuffers::new(2)
        .kind(BufferKind::Array)
        .layout(layout)
        .push()
        .kind(BufferKind::ShaderStorage { size: 256 })
        .storage_flags(StorageFlags::Coherent { read: false, write: true });
    let text = format!("{:?}", buffers);
    assert!(text.contains("ShaderStorage"));
    assert!(text.contains("Coherent"));
    assert_eq!(CreateLayout::default().0.len(), 0);
    assert_eq!(GlBuffer::Attribute { object: 1 }, GlBuffer::Attribute { object: 1 });
    assert_ne!(
        GlBuffer::Storage { object: 1, binding: 2 },
        GlBuffer::Storage { object: 1, binding: 3 }
    );
}

#[test]
fn attributes_lie_in_a_vertex_one_after_the_other() {
    let layout = CreateLayout::new(3)
        .attribute(|attribute| attribute.with_type(AttributeKind::Float, 3))
        .attribute(|attribute| attribute.with_type(AttributeKind::Byte, 4).normalised(true))
        .attribute(|attribute| attribute.with_type(AttributeKind::IntegerSigned, 2));
    let buffers = CreateBuffers::new(1).layout(layout).into_buffers();
    assert_eq!(buffers.len(), 1);
    assert_eq!(buffers[0].stride(), 24);
    assert_eq!(
        buffers[0].formats(),
        vec![
            AttributeFormat { index: 0, size: 3, kind: 0x1406, normalised: false, offset: 0 },
            AttributeFormat { index: 1, size: 4, kind: 0x1401, normalised: true, offset: 12 },
            AttributeFormat { index: 2, size: 2, kind: 0x1404, normalised: false, offset: 16 },
        ]
    );
    let blank = CreateBuffers::new(1).push().into_buffers();
    assert_eq!(blank.len(), 2);
    assert_eq!(blank[1].kind, BufferKind::Array);
    assert_eq!(blank[1].storage_flags, StorageFlags::Static);
    assert_eq!(blank[1].stride(), 0);
    assert!(blank[1].formats().is_empty());
}
