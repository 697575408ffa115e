use chartify::decimal::{i64_to_string, u64_to_string};
use chartify::ppt::PptGenerator;
use std::io::Read;

#[test]
fn decimal_rendering() {
    assert_eq!(u64_to_string(0), "0");
    assert_eq!(u64_to_string(7), "7");
    assert_eq!(u64_to_string(10), "10");
    assert_eq!(u64_to_string(90109), "90109");
    assert_eq!(i64_to_string(-42), "-42");
    assert_eq!(i64_to_string(0), "0");
    assert_eq!(i64_to_string(914400), "914400");
}

#[test]
fn content_types_lists_each_slide() {
    let xml = PptGenerator::content_types_xml(2, 5);
    assert!(xml.starts_with("<?xml version=\"1.0\" encoding=\"UTF-8\" standalone=\"yes\"?>"));
    assert!(xml.contains("<Default Extension=\"png\" ContentType=\"image/png\"/>"));
    assert!(xml.contains("<Override PartName=\"/ppt/slides/slide1.xml\""));
    assert!(xml.contains("<Override PartName=\"/ppt/slides/slide2.xml\""));
    assert!(!xml.contains("<Override PartName=\"/ppt/slides/slide3.xml\""));
    assert!(xml.ends_with("</Types>"));
}

#[test]
fn rels_xml_names_the_package_parts() {
    let xml = PptGenerator::rels_xml();
    assert!(xml.contains("Target=\"ppt/presentation.xml\""));
    assert!(xml.contains("Target=\"docProps/core.xml\""));
    assert!(xml.contains("Target=\"docProps/app.xml\""));
}

#[test]
fn presentation_rels_number_slides_from_rid3() {
    let xml = PptGenerator::presentation_rels_xml(2);
    assert!(xml.contains("<Relationship Id=\"rId3\""));
    assert!(xml.contains("Target=\"slides/slide1.xml\""));
    assert!(xml.contains("<Relationship Id=\"rId4\""));
    assert!(xml.contains("Target=\"slides/slide2.xml\""));
}

#[test]
fn presentation_xml_numbers_slide_ids_from_256() {
    let xml = PptGenerator::presentation_xml("Report", 2);
    assert!(xml.contains("<p:sldId id=\"256\" r:id=\"rId3\"/>"));
    assert!(xml.contains("<p:sldId id=\"257\" r:id=\"rId4\"/>"));
    assert!(xml.contains("<p:sldSz cx=\"9144000\" cy=\"6858000\" type=\"screen16x9\"/>"));
}

#[test]
fn slide_rels_reference_global_image_numbers() {
    let xml = PptGenerator::slide_rels_xml(&vec![5, 6]);
    assert!(xml.contains("<Relationship Id=\"rId2\""));
    assert!(xml.contains("Target=\"../media/image5.png\""));
    assert!(xml.contains("<Relationship Id=\"rId3\""));
    assert!(xml.contains("Target=\"../media/image6.png\""));
}

#[test]
fn slide_xml_places_each_picture() {
    let xml = PptGenerator::slide_xml(
        1,
        &vec![1, 2],
        &vec![(457200, 457200, 4000500, 2857500), (4686300, 457200, 4000500, 2857500)],
    );
    assert!(xml.contains("<p:cNvPr id=\"2\" name=\"Picture 2\"/>"));
    assert!(xml.contains("<p:cNvPr id=\"3\" name=\"Picture 3\"/>"));
    assert!(xml.contains("<a:off x=\"457200\" y=\"457200\"/>"));
    assert!(xml.contains("<a:off x=\"4686300\" y=\"457200\"/>"));
    assert!(xml.contains("<a:ext cx=\"4000500\" cy=\"2857500\"/>"));
    assert!(xml.contains("<a:blip r:embed=\"rId2\"/>"));
    assert!(xml.contains("<a:blip r:embed=\"rId3\"/>"));
}

#[test]
fn core_props_embed_title() {
    let xml = PptGenerator::core_props_xml("Weekly Report");
    assert!(xml.contains("<dc:title>Weekly Report</dc:title>"));
    assert!(xml.contains("<dc:creator>Chartify Pro</dc:creator>"));
}

#[test]
fn app_props_embed_slide_count() {
    let xml = PptGenerator::app_props_xml(3);
    assert!(xml.contains("<Slides>3</Slides>"));
    assert!(xml.contains("<PresentationFormat>On-screen Show (16:9)</PresentationFormat>"));
}

#[test]
fn fixed_parts_are_well_formed() {
    assert!(PptGenerator::slide_layout_xml().contains("<p:sldLayout"));
    assert!(PptGenerator::layout_rels_xml().contains("slideMaster1.xml"));
    assert!(PptGenerator::slide_master_xml().contains("<p:sldMaster"));
    assert!(PptGenerator::master_rels_xml().contains("theme1.xml"));
    assert!(PptGenerator::theme_xml().contains("name=\"Office Theme\""));
}

fn fake_png(tag: u8) -> Vec<u8> {
    let mut bytes = vec![0x89, b'P', b'N', b'G', 0x0D, 0x0A, 0x1A, 0x0A];
    bytes.extend_from_slice(&[tag; 32]);
    bytes
}

#[test]
fn generated_deck_is_a_readable_archive() {
    let images = vec![fake_png(1), fake_png(2), fake_png(3), fake_png(4), fake_png(5)];
    let bytes = PptGenerator::generate_ppt_from_bytes(&images, "Test Deck").expect("deck");
    let cursor = std::io::Cursor::new(bytes);
    let mut archive = zip::ZipArchive::new(cursor).expect("valid zip");
    let names: Vec<String> = (0..archive.len())
        .map(|i| archive.by_index(i).unwrap().name().to_string())
        .collect();
    // Five images fill two slides.
    assert!(names.contains(&"[Content_Types].xml".to_string()));
    assert!(names.contains(&"ppt/presentation.xml".to_string()));
    assert!(names.contains(&"ppt/slides/slide1.xml".to_string()));
    assert!(names.contains(&"ppt/slides/slide2.xml".to_string()));
    assert!(!names.contains(&"ppt/slides/slide3.xml".to_string()));
    assert!(names.contains(&"ppt/media/image5.png".to_string()));
    assert!(names.contains(&"docProps/core.xml".to_string()));

    let mut content_types = String::new();
    archive
        .by_name("[Content_Types].xml")
        .unwrap()
        .read_to_string(&mut content_types)
        .unwrap();
    assert_eq!(content_types, PptGenerator::content_types_xml(2, 5));

    let mut media = Vec::new();
    archive
        .by_name("ppt/media/image3.png")
        .unwrap()
        .read_to_end(&mut media)
        .unwrap();
    assert_eq!(media, fake_png(3));

    let mut core = String::new();
    archive
        .by_name("docProps/core.xml")
        .unwrap()
        .read_to_string(&mut core)
        .unwrap();
    assert!(core.contains("<dc:title>Test Deck</dc:title>"));
}

#[test]
fn generated_deck_is_deterministic() {
    let images = vec![fake_png(9)];
    let a = PptGenerator::generate_ppt_from_bytes(&images, "Same").expect("deck");
    let b = PptGenerator::generate_ppt_from_bytes(&images, "Same").expect("deck");
    assert_eq!(a, b);
}

#[test]
fn empty_deck_has_no_slides() {
    let images: Vec<Vec<u8>> = Vec::new();
    let bytes = PptGenerator::generate_ppt_from_bytes(&images, "Empty").expect("deck");
    let cursor = std::io::Cursor::new(bytes);
    let archive = zip::ZipArchive::new(cursor).expect("valid zip");
    let names: Vec<&str> = archive.file_names().collect();
    assert!(!names.iter().any(|n| n.starts_with("ppt/slides/")));
    assert!(!names.iter().any(|n| n.starts_with("ppt/media/")));
}
