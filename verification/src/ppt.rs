//! The slide-deck container: the XML parts of a minimal PowerPoint file
//! with one picture grid per slide, and the zip archive that packages
//! them with the rendered images.
//!
//! Each part builder's contract gives the produced text exactly, as the
//! fixed template around the decimal slide and image numbers.

use crate::decimal::{dec_digits, dec_digits_i64, i64_to_string, u64_to_string};
use std::io::Write;
use vstd::prelude::*;

verus! {

/// Builds the slide-deck container.
pub struct PptGenerator;

/// English Metric Units per inch.
pub const EMU_PER_INCH: i64 = 914400;

/// Slide width for a 16:9 deck, in EMU (ten inches).
pub const SLIDE_WIDTH: i64 = 9144000;

/// Slide height for a 16:9 deck, in EMU (seven and a half inches).
pub const SLIDE_HEIGHT: i64 = 6858000;

/// The slide overrides of the content-types part, one per slide.
pub open spec fn spec_slide_overrides(k: nat) -> Seq<char>
    decreases k,
{
    if k == 0 {
        Seq::empty()
    } else {
        spec_slide_overrides((k - 1) as nat)
            + "<Override PartName=\"/ppt/slides/slide"@
            + dec_digits(k)
            + ".xml\" ContentType=\"application/vnd.openxmlformats-officedocument.presentationml.slide+xml\"/>\n"@
    }
}

/// The content-types part.
pub open spec fn spec_content_types_xml(slide_count: nat) -> Seq<char> {
    "<?xml version=\"1.0\" encoding=\"UTF-8\" standalone=\"yes\"?>\n<Types xmlns=\"http://schemas.openxmlformats.org/package/2006/content-types\">\n<Default Extension=\"rels\" ContentType=\"application/vnd.openxmlformats-package.relationships+xml\"/>\n<Default Extension=\"xml\" ContentType=\"application/xml\"/>\n<Default Extension=\"png\" ContentType=\"image/png\"/>\n<Default Extension=\"jpg\" ContentType=\"image/jpeg\"/>\n<Default Extension=\"jpeg\" ContentType=\"image/jpeg\"/>\n<Override PartName=\"/ppt/presentation.xml\" ContentType=\"application/vnd.openxmlformats-officedocument.presentationml.presentation.main+xml\"/>\n<Override PartName=\"/ppt/slideMasters/slideMaster1.xml\" ContentType=\"application/vnd.openxmlformats-officedocument.presentationml.slideMaster+xml\"/>\n<Override PartName=\"/ppt/slideLayouts/slideLayout1.xml\" ContentType=\"application/vnd.openxmlformats-officedocument.presentationml.slideLayout+xml\"/>\n<Override PartName=\"/ppt/theme/theme1.xml\" ContentType=\"application/vnd.openxmlformats-officedocument.theme+xml\"/>\n<Override PartName=\"/docProps/core.xml\" ContentType=\"application/vnd.openxmlformats-package.core-properties+xml\"/>\n<Override PartName=\"/docProps/app.xml\" ContentType=\"application/vnd.openxmlformats-officedocument.extended-properties+xml\"/>\n"@
        + spec_slide_overrides(slide_count) + "</Types>"@
}

/// The slide relationship entries of the presentation part, one per slide.
pub open spec fn spec_presentation_rel_entries(k: nat) -> Seq<char>
    decreases k,
{
    if k == 0 {
        Seq::empty()
    } else {
        spec_presentation_rel_entries((k - 1) as nat)
            + "<Relationship Id=\"rId"@
            + dec_digits(k + 2)
            + "\" Type=\"http://schemas.openxmlformats.org/officeDocument/2006/relationships/slide\" Target=\"slides/slide"@
            + dec_digits(k) + ".xml\"/>\n"@
    }
}

/// The presentation's relationships part.
pub open spec fn spec_presentation_rels_xml(slide_count: nat) -> Seq<char> {
    "<?xml version=\"1.0\" encoding=\"UTF-8\" standalone=\"yes\"?>\n<Relationships xmlns=\"http://schemas.openxmlformats.org/package/2006/relationships\">\n<Relationship Id=\"rId1\" Type=\"http://schemas.openxmlformats.org/officeDocument/2006/relationships/slideMaster\" Target=\"slideMasters/slideMaster1.xml\"/>\n<Relationship Id=\"rId2\" Type=\"http://schemas.openxmlformats.org/officeDocument/2006/relationships/theme\" Target=\"theme/theme1.xml\"/>\n"@
        + spec_presentation_rel_entries(slide_count) + "</Relationships>"@
}

/// The slide-id entries of the presentation part, one per slide.
pub open spec fn spec_slide_id_entries(k: nat) -> Seq<char>
    decreases k,
{
    if k == 0 {
        Seq::empty()
    } else {
        spec_slide_id_entries((k - 1) as nat) + "<p:sldId id=\""@ + dec_digits(k + 255)
            + "\" r:id=\"rId"@ + dec_digits(k + 2) + "\"/>"@
    }
}

/// The presentation part.
pub open spec fn spec_presentation_xml(slide_count: nat) -> Seq<char> {
    "<?xml version=\"1.0\" encoding=\"UTF-8\" standalone=\"yes\"?>\n<p:presentation xmlns:a=\"http://schemas.openxmlformats.org/drawingml/2006/main\" xmlns:r=\"http://schemas.openxmlformats.org/officeDocument/2006/relationships\" xmlns:p=\"http://schemas.openxmlformats.org/presentationml/2006/main\" saveSubsetFonts=\"1\">\n<p:sldMasterIdLst><p:sldMasterId id=\"2147483648\" r:id=\"rId1\"/></p:sldMasterIdLst>\n<p:sldIdLst>"@
        + spec_slide_id_entries(slide_count)
        + "</p:sldIdLst>\n<p:sldSz cx=\"9144000\" cy=\"6858000\" type=\"screen16x9\"/>\n<p:notesSz cx=\"6858000\" cy=\"9144000\"/>\n</p:presentation>"@
}

/// The image relationship entries of one slide, one per picture.
pub open spec fn spec_slide_rel_entries(image_ids: Seq<usize>, k: nat) -> Seq<char>
    decreases k,
{
    if k == 0 {
        Seq::empty()
    } else {
        spec_slide_rel_entries(image_ids, (k - 1) as nat)
            + "<Relationship Id=\"rId"@
            + dec_digits(k + 1)
            + "\" Type=\"http://schemas.openxmlformats.org/officeDocument/2006/relationships/image\" Target=\"../media/image"@
            + dec_digits(image_ids[k - 1] as nat) + ".png\"/>\n"@
    }
}

/// One slide's relationships part.
pub open spec fn spec_slide_rels_xml(image_ids: Seq<usize>) -> Seq<char> {
    "<?xml version=\"1.0\" encoding=\"UTF-8\" standalone=\"yes\"?>\n<Relationships xmlns=\"http://schemas.openxmlformats.org/package/2006/relationships\">\n<Relationship Id=\"rId1\" Type=\"http://schemas.openxmlformats.org/officeDocument/2006/relationships/slideLayout\" Target=\"../slideLayouts/slideLayout1.xml\"/>\n"@
        + spec_slide_rel_entries(image_ids, image_ids.len()) + "</Relationships>"@
}

/// The picture shapes of one slide, one per placed image.
pub open spec fn spec_slide_shapes(positions: Seq<(i64, i64, i64, i64)>, k: nat) -> Seq<char>
    decreases k,
{
    if k == 0 {
        Seq::empty()
    } else {
        spec_slide_shapes(positions, (k - 1) as nat)
            + "\n<p:pic>\n<p:nvPicPr>\n<p:cNvPr id=\""@
            + dec_digits(k + 1)
            + "\" name=\"Picture "@
            + dec_digits(k + 1)
            + "\"/>\n<p:cNvPicPr><a:picLocks noChangeAspect=\"1\"/></p:cNvPicPr>\n<p:nvPr/>\n</p:nvPicPr>\n<p:blipFill>\n<a:blip r:embed=\"rId"@
            + dec_digits(k + 1)
            + "\"/>\n<a:stretch><a:fillRect/></a:stretch>\n</p:blipFill>\n<p:spPr>\n<a:xfrm><a:off x=\""@
            + dec_digits_i64(positions[k - 1].0 as int)
            + "\" y=\""@
            + dec_digits_i64(positions[k - 1].1 as int)
            + "\"/><a:ext cx=\""@
            + dec_digits_i64(positions[k - 1].2 as int)
            + "\" cy=\""@
            + dec_digits_i64(positions[k - 1].3 as int)
            + "\"/></a:xfrm>\n<a:prstGeom prst=\"rect\"><a:avLst/></a:prstGeom>\n</p:spPr>\n</p:pic>"@
    }
}

/// One slide's part: a blank layout holding the picture shapes.
pub open spec fn spec_slide_xml(positions: Seq<(i64, i64, i64, i64)>, count: nat) -> Seq<char> {
    "<?xml version=\"1.0\" encoding=\"UTF-8\" standalone=\"yes\"?>\n<p:sld xmlns:a=\"http://schemas.openxmlformats.org/drawingml/2006/main\" xmlns:r=\"http://schemas.openxmlformats.org/officeDocument/2006/relationships\" xmlns:p=\"http://schemas.openxmlformats.org/presentationml/2006/main\">\n<p:cSld>\n<p:spTree>\n<p:nvGrpSpPr><p:cNvPr id=\"1\" name=\"\"/><p:cNvGrpSpPr/><p:nvPr/></p:nvGrpSpPr>\n<p:grpSpPr><a:xfrm><a:off x=\"0\" y=\"0\"/><a:ext cx=\"0\" cy=\"0\"/><a:chOff x=\"0\" y=\"0\"/><a:chExt cx=\"0\" cy=\"0\"/></a:xfrm></p:grpSpPr>\n"@
        + spec_slide_shapes(positions, count)
        + "\n</p:spTree>\n</p:cSld>\n<p:clrMapOvr><a:masterClrMapping/></p:clrMapOvr>\n</p:sld>"@
}

/// The core document properties part.
pub open spec fn spec_core_props_xml(title: Seq<char>) -> Seq<char> {
    "<?xml version=\"1.0\" encoding=\"UTF-8\" standalone=\"yes\"?>\n<cp:coreProperties xmlns:cp=\"http://schemas.openxmlformats.org/package/2006/metadata/core-properties\" xmlns:dc=\"http://purl.org/dc/elements/1.1/\" xmlns:dcterms=\"http://purl.org/dc/terms/\" xmlns:dcmitype=\"http://purl.org/dc/dcmitype/\" xmlns:xsi=\"http://www.w3.org/2001/XMLSchema-instance\">\n<dc:title>"@
        + title
        + "</dc:title>\n<dc:creator>Chartify Pro</dc:creator>\n<cp:lastModifiedBy>Chartify Pro</cp:lastModifiedBy>\n<cp:revision>1</cp:revision>\n</cp:coreProperties>"@
}

/// The extended application properties part.
pub open spec fn spec_app_props_xml(slide_count: nat) -> Seq<char> {
    "<?xml version=\"1.0\" encoding=\"UTF-8\" standalone=\"yes\"?>\n<Properties xmlns=\"http://schemas.openxmlformats.org/officeDocument/2006/extended-properties\" xmlns:vt=\"http://schemas.openxmlformats.org/officeDocument/2006/docPropsVTypes\">\n<TotalTime>0</TotalTime>\n<Words>0</Words>\n<Application>Chartify Pro</Application>\n<PresentationFormat>On-screen Show (16:9)</PresentationFormat>\n<Paragraphs>0</Paragraphs>\n<Slides>"@
        + dec_digits(slide_count)
        + "</Slides>\n<Notes>0</Notes>\n<HiddenSlides>0</HiddenSlides>\n<MMClips>0</MMClips>\n<ScaleCrop>false</ScaleCrop>\n<LinksUpToDate>false</LinksUpToDate>\n<SharedDoc>false</SharedDoc>\n<HyperlinksChanged>false</HyperlinksChanged>\n<AppVersion>16.0000</AppVersion>\n</Properties>"@
}

impl PptGenerator {
    /// The content-types part, naming every fixed part and one override
    /// per slide.
    pub fn content_types_xml(slide_count: usize, _image_count: usize) -> (r: String)
        requires
            slide_count <= 0xffff_ffff,
        ensures
            r@ == spec_content_types_xml(slide_count as nat),
    {
        let mut xml = String::from_str(
            "<?xml version=\"1.0\" encoding=\"UTF-8\" standalone=\"yes\"?>\n<Types xmlns=\"http://schemas.openxmlformats.org/package/2006/content-types\">\n<Default Extension=\"rels\" ContentType=\"application/vnd.openxmlformats-package.relationships+xml\"/>\n<Default Extension=\"xml\" ContentType=\"application/xml\"/>\n<Default Extension=\"png\" ContentType=\"image/png\"/>\n<Default Extension=\"jpg\" ContentType=\"image/jpeg\"/>\n<Default Extension=\"jpeg\" ContentType=\"image/jpeg\"/>\n<Override PartName=\"/ppt/presentation.xml\" ContentType=\"application/vnd.openxmlformats-officedocument.presentationml.presentation.main+xml\"/>\n<Override PartName=\"/ppt/slideMasters/slideMaster1.xml\" ContentType=\"application/vnd.openxmlformats-officedocument.presentationml.slideMaster+xml\"/>\n<Override PartName=\"/ppt/slideLayouts/slideLayout1.xml\" ContentType=\"application/vnd.openxmlformats-officedocument.presentationml.slideLayout+xml\"/>\n<Override PartName=\"/ppt/theme/theme1.xml\" ContentType=\"application/vnd.openxmlformats-officedocument.theme+xml\"/>\n<Override PartName=\"/docProps/core.xml\" ContentType=\"application/vnd.openxmlformats-package.core-properties+xml\"/>\n<Override PartName=\"/docProps/app.xml\" ContentType=\"application/vnd.openxmlformats-officedocument.extended-properties+xml\"/>\n",
        );
        let ghost head = xml@;
        let mut k: usize = 0;
        while k < slide_count
            invariant
                slide_count <= 0xffff_ffff,
                k <= slide_count,
                xml@ == head + spec_slide_overrides(k as nat),
            decreases slide_count - k,
        {
            xml.append("<Override PartName=\"/ppt/slides/slide");
            let num = u64_to_string((k as u64) + 1);
            xml.append(num.as_str());
            xml.append(
                ".xml\" ContentType=\"application/vnd.openxmlformats-officedocument.presentationml.slide+xml\"/>\n",
            );
            k = k + 1;
        }
        xml.append("</Types>");
        xml
    }

    /// The package-level relationships part.
    pub fn rels_xml() -> (r: &'static str)
        ensures
            r@ == spec_rels_xml(),
    {
        "<?xml version=\"1.0\" encoding=\"UTF-8\" standalone=\"yes\"?>\n<Relationships xmlns=\"http://schemas.openxmlformats.org/package/2006/relationships\">\n<Relationship Id=\"rId1\" Type=\"http://schemas.openxmlformats.org/officeDocument/2006/relationships/officeDocument\" Target=\"ppt/presentation.xml\"/>\n<Relationship Id=\"rId2\" Type=\"http://schemas.openxmlformats.org/package/2006/relationships/metadata/core-properties\" Target=\"docProps/core.xml\"/>\n<Relationship Id=\"rId3\" Type=\"http://schemas.openxmlformats.org/officeDocument/2006/relationships/extended-properties\" Target=\"docProps/app.xml\"/>\n</Relationships>"
    }

    /// The presentation's relationships part: master, theme, and one slide
    /// relationship per slide.
    pub fn presentation_rels_xml(slide_count: usize) -> (r: String)
        requires
            slide_count <= 0xffff_ffff,
        ensures
            r@ == spec_presentation_rels_xml(slide_count as nat),
    {
        let mut xml = String::from_str(
            "<?xml version=\"1.0\" encoding=\"UTF-8\" standalone=\"yes\"?>\n<Relationships xmlns=\"http://schemas.openxmlformats.org/package/2006/relationships\">\n<Relationship Id=\"rId1\" Type=\"http://schemas.openxmlformats.org/officeDocument/2006/relationships/slideMaster\" Target=\"slideMasters/slideMaster1.xml\"/>\n<Relationship Id=\"rId2\" Type=\"http://schemas.openxmlformats.org/officeDocument/2006/relationships/theme\" Target=\"theme/theme1.xml\"/>\n",
        );
        let ghost head = xml@;
        let mut k: usize = 0;
        while k < slide_count
            invariant
                slide_count <= 0xffff_ffff,
                k <= slide_count,
                xml@ == head + spec_presentation_rel_entries(k as nat),
            decreases slide_count - k,
        {
            xml.append("<Relationship Id=\"rId");
            let rid = u64_to_string((k as u64) + 3);
            xml.append(rid.as_str());
            xml.append(
                "\" Type=\"http://schemas.openxmlformats.org/officeDocument/2006/relationships/slide\" Target=\"slides/slide",
            );
            let num = u64_to_string((k as u64) + 1);
            xml.append(num.as_str());
            xml.append(".xml\"/>\n");
            k = k + 1;
        }
        xml.append("</Relationships>");
        xml
    }

    /// The presentation part: master and slide identifiers and the slide
    /// sizes.
    pub fn presentation_xml(_title: &str, slide_count: usize) -> (r: String)
        requires
            slide_count <= 0xffff_ffff,
        ensures
            r@ == spec_presentation_xml(slide_count as nat),
    {
        let mut xml = String::from_str(
            "<?xml version=\"1.0\" encoding=\"UTF-8\" standalone=\"yes\"?>\n<p:presentation xmlns:a=\"http://schemas.openxmlformats.org/drawingml/2006/main\" xmlns:r=\"http://schemas.openxmlformats.org/officeDocument/2006/relationships\" xmlns:p=\"http://schemas.openxmlformats.org/presentationml/2006/main\" saveSubsetFonts=\"1\">\n<p:sldMasterIdLst><p:sldMasterId id=\"2147483648\" r:id=\"rId1\"/></p:sldMasterIdLst>\n<p:sldIdLst>",
        );
        let ghost head = xml@;
        let mut k: usize = 0;
        while k < slide_count
            invariant
                slide_count <= 0xffff_ffff,
                k <= slide_count,
                xml@ == head + spec_slide_id_entries(k as nat),
            decreases slide_count - k,
        {
            xml.append("<p:sldId id=\"");
            let sid = u64_to_string((k as u64) + 256);
            xml.append(sid.as_str());
            xml.append("\" r:id=\"rId");
            let rid = u64_to_string((k as u64) + 3);
            xml.append(rid.as_str());
            xml.append("\"/>");
            k = k + 1;
        }
        xml.append(
            "</p:sldIdLst>\n<p:sldSz cx=\"9144000\" cy=\"6858000\" type=\"screen16x9\"/>\n<p:notesSz cx=\"6858000\" cy=\"9144000\"/>\n</p:presentation>",
        );
        xml
    }

    /// One slide's relationships part: the layout and one image
    /// relationship per picture.
    pub fn slide_rels_xml(image_ids: &Vec<usize>) -> (r: String)
        requires
            image_ids@.len() <= 0xffff_ffff,
            forall|i: int| 0 <= i < image_ids@.len() ==> #[trigger] image_ids@[i] <= 0xffff_ffff,
        ensures
            r@ == spec_slide_rels_xml(image_ids@),
    {
        let mut xml = String::from_str(
            "<?xml version=\"1.0\" encoding=\"UTF-8\" standalone=\"yes\"?>\n<Relationships xmlns=\"http://schemas.openxmlformats.org/package/2006/relationships\">\n<Relationship Id=\"rId1\" Type=\"http://schemas.openxmlformats.org/officeDocument/2006/relationships/slideLayout\" Target=\"../slideLayouts/slideLayout1.xml\"/>\n",
        );
        let ghost head = xml@;
        let mut k: usize = 0;
        while k < image_ids.len()
            invariant
                image_ids@.len() <= 0xffff_ffff,
                forall|i: int|
                    0 <= i < image_ids@.len() ==> #[trigger] image_ids@[i] <= 0xffff_ffff,
                k <= image_ids@.len(),
                xml@ == head + spec_slide_rel_entries(image_ids@, k as nat),
            decreases image_ids@.len() - k,
        {
            xml.append("<Relationship Id=\"rId");
            let rid = u64_to_string((k as u64) + 2);
            xml.append(rid.as_str());
            xml.append(
                "\" Type=\"http://schemas.openxmlformats.org/officeDocument/2006/relationships/image\" Target=\"../media/image",
            );
            let num = u64_to_string(image_ids[k] as u64);
            xml.append(num.as_str());
            xml.append(".png\"/>\n");
            k = k + 1;
        }
        xml.append("</Relationships>");
        xml
    }

    /// One slide's part: the blank group header and one picture shape per
    /// placed image, each at its `(x, y, width, height)` in EMU.
    #[verifier::rlimit(60)]
    pub fn slide_xml(
        _slide_num: usize,
        image_ids: &Vec<usize>,
        positions: &Vec<(i64, i64, i64, i64)>,
    ) -> (r: String)
        requires
            positions@.len() <= 0xffff_ffff,
            positions@.len() <= image_ids@.len(),
        ensures
            r@ == spec_slide_xml(positions@, positions@.len()),
    {
        let mut xml = String::from_str(
            "<?xml version=\"1.0\" encoding=\"UTF-8\" standalone=\"yes\"?>\n<p:sld xmlns:a=\"http://schemas.openxmlformats.org/drawingml/2006/main\" xmlns:r=\"http://schemas.openxmlformats.org/officeDocument/2006/relationships\" xmlns:p=\"http://schemas.openxmlformats.org/presentationml/2006/main\">\n<p:cSld>\n<p:spTree>\n<p:nvGrpSpPr><p:cNvPr id=\"1\" name=\"\"/><p:cNvGrpSpPr/><p:nvPr/></p:nvGrpSpPr>\n<p:grpSpPr><a:xfrm><a:off x=\"0\" y=\"0\"/><a:ext cx=\"0\" cy=\"0\"/><a:chOff x=\"0\" y=\"0\"/><a:chExt cx=\"0\" cy=\"0\"/></a:xfrm></p:grpSpPr>\n",
        );
        let ghost head = xml@;
        let mut k: usize = 0;
        while k < positions.len()
            invariant
                positions@.len() <= 0xffff_ffff,
                k <= positions@.len(),
                xml@ == head + spec_slide_shapes(positions@, k as nat),
            decreases positions@.len() - k,
        {
            let (x, y, w, h) = positions[k];
            let sid = u64_to_string((k as u64) + 2);
            xml.append("\n<p:pic>\n<p:nvPicPr>\n<p:cNvPr id=\"");
            xml.append(sid.as_str());
            xml.append("\" name=\"Picture ");
            xml.append(sid.as_str());
            xml.append(
                "\"/>\n<p:cNvPicPr><a:picLocks noChangeAspect=\"1\"/></p:cNvPicPr>\n<p:nvPr/>\n</p:nvPicPr>\n<p:blipFill>\n<a:blip r:embed=\"rId",
            );
            xml.append(sid.as_str());
            xml.append(
                "\"/>\n<a:stretch><a:fillRect/></a:stretch>\n</p:blipFill>\n<p:spPr>\n<a:xfrm><a:off x=\"",
            );
            let xs = i64_to_string(x);
            xml.append(xs.as_str());
            xml.append("\" y=\"");
            let ys = i64_to_string(y);
            xml.append(ys.as_str());
            xml.append("\"/><a:ext cx=\"");
            let ws = i64_to_string(w);
            xml.append(ws.as_str());
            xml.append("\" cy=\"");
            let hs = i64_to_string(h);
            xml.append(hs.as_str());
            xml.append(
                "\"/></a:xfrm>\n<a:prstGeom prst=\"rect\"><a:avLst/></a:prstGeom>\n</p:spPr>\n</p:pic>",
            );
            k = k + 1;
        }
        xml.append("\n</p:spTree>\n</p:cSld>\n<p:clrMapOvr><a:masterClrMapping/></p:clrMapOvr>\n</p:sld>");
        xml
    }

    /// The single blank slide layout.
    pub fn slide_layout_xml() -> (r: &'static str)
        ensures
            r@ == spec_slide_layout_xml(),
    {
        "<?xml version=\"1.0\" encoding=\"UTF-8\" standalone=\"yes\"?>\n<p:sldLayout xmlns:a=\"http://schemas.openxmlformats.org/drawingml/2006/main\" xmlns:r=\"http://schemas.openxmlformats.org/officeDocument/2006/relationships\" xmlns:p=\"http://schemas.openxmlformats.org/presentationml/2006/main\" type=\"blank\" preserve=\"1\">\n<p:cSld name=\"Blank\"><p:spTree><p:nvGrpSpPr><p:cNvPr id=\"1\" name=\"\"/><p:cNvGrpSpPr/><p:nvPr/></p:nvGrpSpPr><p:grpSpPr><a:xfrm><a:off x=\"0\" y=\"0\"/><a:ext cx=\"0\" cy=\"0\"/><a:chOff x=\"0\" y=\"0\"/><a:chExt cx=\"0\" cy=\"0\"/></a:xfrm></p:grpSpPr></p:spTree></p:cSld>\n<p:clrMapOvr><a:masterClrMapping/></p:clrMapOvr>\n</p:sldLayout>"
    }

    /// The layout's relationships part.
    pub fn layout_rels_xml() -> (r: &'static str)
        ensures
            r@ == spec_layout_rels_xml(),
    {
        "<?xml version=\"1.0\" encoding=\"UTF-8\" standalone=\"yes\"?>\n<Relationships xmlns=\"http://schemas.openxmlformats.org/package/2006/relationships\">\n<Relationship Id=\"rId1\" Type=\"http://schemas.openxmlformats.org/officeDocument/2006/relationships/slideMaster\" Target=\"../slideMasters/slideMaster1.xml\"/>\n</Relationships>"
    }

    /// The slide master part.
    pub fn slide_master_xml() -> (r: &'static str)
        ensures
            r@ == spec_slide_master_xml(),
    {
        "<?xml version=\"1.0\" encoding=\"UTF-8\" standalone=\"yes\"?>\n<p:sldMaster xmlns:a=\"http://schemas.openxmlformats.org/drawingml/2006/main\" xmlns:r=\"http://schemas.openxmlformats.org/officeDocument/2006/relationships\" xmlns:p=\"http://schemas.openxmlformats.org/presentationml/2006/main\">\n<p:cSld><p:bg><p:bgRef idx=\"1001\"><a:schemeClr val=\"bg1\"/></p:bgRef></p:bg><p:spTree><p:nvGrpSpPr><p:cNvPr id=\"1\" name=\"\"/><p:cNvGrpSpPr/><p:nvPr/></p:nvGrpSpPr><p:grpSpPr><a:xfrm><a:off x=\"0\" y=\"0\"/><a:ext cx=\"0\" cy=\"0\"/><a:chOff x=\"0\" y=\"0\"/><a:chExt cx=\"0\" cy=\"0\"/></a:xfrm></p:grpSpPr></p:spTree></p:cSld>\n<p:clrMap bg1=\"lt1\" tx1=\"dk1\" bg2=\"lt2\" tx2=\"dk2\" accent1=\"accent1\" accent2=\"accent2\" accent3=\"accent3\" accent4=\"accent4\" accent5=\"accent5\" accent6=\"accent6\" hlink=\"hlink\" folHlink=\"folHlink\"/>\n<p:sldLayoutIdLst><p:sldLayoutId id=\"2147483649\" r:id=\"rId1\"/></p:sldLayoutIdLst>\n</p:sldMaster>"
    }

    /// The master's relationships part.
    pub fn master_rels_xml() -> (r: &'static str)
        ensures
            r@ == spec_master_rels_xml(),
    {
        "<?xml version=\"1.0\" encoding=\"UTF-8\" standalone=\"yes\"?>\n<Relationships xmlns=\"http://schemas.openxmlformats.org/package/2006/relationships\">\n<Relationship Id=\"rId1\" Type=\"http://schemas.openxmlformats.org/officeDocument/2006/relationships/slideLayout\" Target=\"../slideLayouts/slideLayout1.xml\"/>\n<Relationship Id=\"rId2\" Type=\"http://schemas.openxmlformats.org/officeDocument/2006/relationships/theme\" Target=\"../theme/theme1.xml\"/>\n</Relationships>"
    }

    /// The theme part.
    pub fn theme_xml() -> (r: &'static str)
        ensures
            r@ == spec_theme_xml(),
    {
        "<?xml version=\"1.0\" encoding=\"UTF-8\" standalone=\"yes\"?>\n<a:theme xmlns:a=\"http://schemas.openxmlformats.org/drawingml/2006/main\" name=\"Office Theme\">\n<a:themeElements>\n<a:clrScheme name=\"Office\"><a:dk1><a:sysClr val=\"windowText\" lastClr=\"000000\"/></a:dk1><a:lt1><a:sysClr val=\"window\" lastClr=\"FFFFFF\"/></a:lt1><a:dk2><a:srgbClr val=\"44546A\"/></a:dk2><a:lt2><a:srgbClr val=\"E7E6E6\"/></a:lt2><a:accent1><a:srgbClr val=\"4472C4\"/></a:accent1><a:accent2><a:srgbClr val=\"ED7D31\"/></a:accent2><a:accent3><a:srgbClr val=\"A5A5A5\"/></a:accent3><a:accent4><a:srgbClr val=\"FFC000\"/></a:accent4><a:accent5><a:srgbClr val=\"5B9BD5\"/></a:accent5><a:accent6><a:srgbClr val=\"70AD47\"/></a:accent6><a:hlink><a:srgbClr val=\"0563C1\"/></a:hlink><a:folHlink><a:srgbClr val=\"954F72\"/></a:folHlink></a:clrScheme>\n<a:fontScheme name=\"Office\"><a:majorFont><a:latin typeface=\"Calibri Light\"/><a:ea typeface=\"\"/><a:cs typeface=\"\"/></a:majorFont><a:minorFont><a:latin typeface=\"Calibri\"/><a:ea typeface=\"\"/><a:cs typeface=\"\"/></a:minorFont></a:fontScheme>\n<a:fmtScheme name=\"Office\"><a:fillStyleLst><a:solidFill><a:schemeClr val=\"phClr\"/></a:solidFill><a:gradFill rotWithShape=\"1\"><a:gsLst><a:gs pos=\"0\"><a:schemeClr val=\"phClr\"><a:tint val=\"50000\"/><a:satMod val=\"300000\"/></a:schemeClr></a:gs><a:gs pos=\"35000\"><a:schemeClr val=\"phClr\"><a:tint val=\"37000\"/><a:satMod val=\"300000\"/></a:schemeClr></a:gs><a:gs pos=\"100000\"><a:schemeClr val=\"phClr\"><a:tint val=\"15000\"/><a:satMod val=\"350000\"/></a:schemeClr></a:gs></a:gsLst><a:lin ang=\"16200000\" scaled=\"1\"/></a:gradFill><a:gradFill rotWithShape=\"1\"><a:gsLst><a:gs pos=\"0\"><a:schemeClr val=\"phClr\"><a:shade val=\"51000\"/><a:satMod val=\"130000\"/></a:schemeClr></a:gs><a:gs pos=\"80000\"><a:schemeClr val=\"phClr\"><a:shade val=\"93000\"/><a:satMod val=\"130000\"/></a:schemeClr></a:gs><a:gs pos=\"100000\"><a:schemeClr val=\"phClr\"><a:shade val=\"94000\"/><a:satMod val=\"135000\"/></a:schemeClr></a:gs></a:gsLst><a:lin ang=\"16200000\" scaled=\"0\"/></a:gradFill></a:fillStyleLst><a:lnStyleLst><a:ln w=\"6350\" cap=\"flat\" cmpd=\"sng\" algn=\"ctr\"><a:solidFill><a:schemeClr val=\"phClr\"/></a:solidFill><a:prstDash val=\"solid\"/><a:miter lim=\"800000\"/></a:ln><a:ln w=\"12700\" cap=\"flat\" cmpd=\"sng\" algn=\"ctr\"><a:solidFill><a:schemeClr val=\"phClr\"/></a:solidFill><a:prstDash val=\"solid\"/><a:miter lim=\"800000\"/></a:ln><a:ln w=\"19050\" cap=\"flat\" cmpd=\"sng\" algn=\"ctr\"><a:solidFill><a:schemeClr val=\"phClr\"/></a:solidFill><a:prstDash val=\"solid\"/><a:miter lim=\"800000\"/></a:ln></a:lnStyleLst><a:effectStyleLst><a:effectStyle><a:effectLst/></a:effectStyle><a:effectStyle><a:effectLst/></a:effectStyle><a:effectStyle><a:effectLst><a:outerShdw blurRad=\"57150\" dist=\"19050\" dir=\"5400000\" algn=\"ctr\" rotWithShape=\"0\"><a:srgbClr val=\"000000\"><a:alpha val=\"63000\"/></a:srgbClr></a:outerShdw></a:effectLst></a:effectStyle></a:effectStyleLst><a:bgFillStyleLst><a:solidFill><a:schemeClr val=\"phClr\"/></a:solidFill><a:solidFill><a:schemeClr val=\"phClr\"><a:tint val=\"95000\"/><a:satMod val=\"170000\"/></a:schemeClr></a:solidFill><a:gradFill rotWithShape=\"1\"><a:gsLst><a:gs pos=\"0\"><a:schemeClr val=\"phClr\"><a:tint val=\"93000\"/><a:satMod val=\"150000\"/><a:shade val=\"98000\"/><a:lumMod val=\"102000\"/></a:schemeClr></a:gs><a:gs pos=\"50000\"><a:schemeClr val=\"phClr\"><a:tint val=\"98000\"/><a:satMod val=\"130000\"/><a:shade val=\"90000\"/><a:lumMod val=\"103000\"/></a:schemeClr></a:gs><a:gs pos=\"100000\"><a:schemeClr val=\"phClr\"><a:shade val=\"63000\"/><a:satMod val=\"120000\"/></a:schemeClr></a:gs></a:gsLst><a:lin ang=\"5400000\" scaled=\"0\"/></a:gradFill></a:bgFillStyleLst></a:fmtScheme>\n</a:themeElements>\n<a:objectDefaults/>\n<a:extraClrSchemeLst/>\n</a:theme>"
    }

    /// The core document properties part, holding the deck title.
    pub fn core_props_xml(title: &str) -> (r: String)
        ensures
            r@ == spec_core_props_xml(title@),
    {
        let mut xml = String::from_str(
            "<?xml version=\"1.0\" encoding=\"UTF-8\" standalone=\"yes\"?>\n<cp:coreProperties xmlns:cp=\"http://schemas.openxmlformats.org/package/2006/metadata/core-properties\" xmlns:dc=\"http://purl.org/dc/elements/1.1/\" xmlns:dcterms=\"http://purl.org/dc/terms/\" xmlns:dcmitype=\"http://purl.org/dc/dcmitype/\" xmlns:xsi=\"http://www.w3.org/2001/XMLSchema-instance\">\n<dc:title>",
        );
        xml.append(title);
        xml.append(
            "</dc:title>\n<dc:creator>Chartify Pro</dc:creator>\n<cp:lastModifiedBy>Chartify Pro</cp:lastModifiedBy>\n<cp:revision>1</cp:revision>\n</cp:coreProperties>",
        );
        xml
    }

    /// The extended application properties part, holding the slide count.
    pub fn app_props_xml(slide_count: usize) -> (r: String)
        requires
            slide_count <= 0xffff_ffff,
        ensures
            r@ == spec_app_props_xml(slide_count as nat),
    {
        let mut xml = String::from_str(
            "<?xml version=\"1.0\" encoding=\"UTF-8\" standalone=\"yes\"?>\n<Properties xmlns=\"http://schemas.openxmlformats.org/officeDocument/2006/extended-properties\" xmlns:vt=\"http://schemas.openxmlformats.org/officeDocument/2006/docPropsVTypes\">\n<TotalTime>0</TotalTime>\n<Words>0</Words>\n<Application>Chartify Pro</Application>\n<PresentationFormat>On-screen Show (16:9)</PresentationFormat>\n<Paragraphs>0</Paragraphs>\n<Slides>",
        );
        let n = u64_to_string(slide_count as u64);
        xml.append(n.as_str());
        xml.append(
            "</Slides>\n<Notes>0</Notes>\n<HiddenSlides>0</HiddenSlides>\n<MMClips>0</MMClips>\n<ScaleCrop>false</ScaleCrop>\n<LinksUpToDate>false</LinksUpToDate>\n<SharedDoc>false</SharedDoc>\n<HyperlinksChanged>false</HyperlinksChanged>\n<AppVersion>16.0000</AppVersion>\n</Properties>",
        );
        xml
    }
}

/// The package-level relationships part.
pub open spec fn spec_rels_xml() -> Seq<char> {
    "<?xml version=\"1.0\" encoding=\"UTF-8\" standalone=\"yes\"?>\n<Relationships xmlns=\"http://schemas.openxmlformats.org/package/2006/relationships\">\n<Relationship Id=\"rId1\" Type=\"http://schemas.openxmlformats.org/officeDocument/2006/relationships/officeDocument\" Target=\"ppt/presentation.xml\"/>\n<Relationship Id=\"rId2\" Type=\"http://schemas.openxmlformats.org/package/2006/relationships/metadata/core-properties\" Target=\"docProps/core.xml\"/>\n<Relationship Id=\"rId3\" Type=\"http://schemas.openxmlformats.org/officeDocument/2006/relationships/extended-properties\" Target=\"docProps/app.xml\"/>\n</Relationships>"@
}

/// The single blank slide layout.
pub open spec fn spec_slide_layout_xml() -> Seq<char> {
    "<?xml version=\"1.0\" encoding=\"UTF-8\" standalone=\"yes\"?>\n<p:sldLayout xmlns:a=\"http://schemas.openxmlformats.org/drawingml/2006/main\" xmlns:r=\"http://schemas.openxmlformats.org/officeDocument/2006/relationships\" xmlns:p=\"http://schemas.openxmlformats.org/presentationml/2006/main\" type=\"blank\" preserve=\"1\">\n<p:cSld name=\"Blank\"><p:spTree><p:nvGrpSpPr><p:cNvPr id=\"1\" name=\"\"/><p:cNvGrpSpPr/><p:nvPr/></p:nvGrpSpPr><p:grpSpPr><a:xfrm><a:off x=\"0\" y=\"0\"/><a:ext cx=\"0\" cy=\"0\"/><a:chOff x=\"0\" y=\"0\"/><a:chExt cx=\"0\" cy=\"0\"/></a:xfrm></p:grpSpPr></p:spTree></p:cSld>\n<p:clrMapOvr><a:masterClrMapping/></p:clrMapOvr>\n</p:sldLayout>"@
}

/// The layout's relationships part.
pub open spec fn spec_layout_rels_xml() -> Seq<char> {
    "<?xml version=\"1.0\" encoding=\"UTF-8\" standalone=\"yes\"?>\n<Relationships xmlns=\"http://schemas.openxmlformats.org/package/2006/relationships\">\n<Relationship Id=\"rId1\" Type=\"http://schemas.openxmlformats.org/officeDocument/2006/relationships/slideMaster\" Target=\"../slideMasters/slideMaster1.xml\"/>\n</Relationships>"@
}

/// The slide master part.
pub open spec fn spec_slide_master_xml() -> Seq<char> {
    "<?xml version=\"1.0\" encoding=\"UTF-8\" standalone=\"yes\"?>\n<p:sldMaster xmlns:a=\"http://schemas.openxmlformats.org/drawingml/2006/main\" xmlns:r=\"http://schemas.openxmlformats.org/officeDocument/2006/relationships\" xmlns:p=\"http://schemas.openxmlformats.org/presentationml/2006/main\">\n<p:cSld><p:bg><p:bgRef idx=\"1001\"><a:schemeClr val=\"bg1\"/></p:bgRef></p:bg><p:spTree><p:nvGrpSpPr><p:cNvPr id=\"1\" name=\"\"/><p:cNvGrpSpPr/><p:nvPr/></p:nvGrpSpPr><p:grpSpPr><a:xfrm><a:off x=\"0\" y=\"0\"/><a:ext cx=\"0\" cy=\"0\"/><a:chOff x=\"0\" y=\"0\"/><a:chExt cx=\"0\" cy=\"0\"/></a:xfrm></p:grpSpPr></p:spTree></p:cSld>\n<p:clrMap bg1=\"lt1\" tx1=\"dk1\" bg2=\"lt2\" tx2=\"dk2\" accent1=\"accent1\" accent2=\"accent2\" accent3=\"accent3\" accent4=\"accent4\" accent5=\"accent5\" accent6=\"accent6\" hlink=\"hlink\" folHlink=\"folHlink\"/>\n<p:sldLayoutIdLst><p:sldLayoutId id=\"2147483649\" r:id=\"rId1\"/></p:sldLayoutIdLst>\n</p:sldMaster>"@
}

/// The master's relationships part.
pub open spec fn spec_master_rels_xml() -> Seq<char> {
    "<?xml version=\"1.0\" encoding=\"UTF-8\" standalone=\"yes\"?>\n<Relationships xmlns=\"http://schemas.openxmlformats.org/package/2006/relationships\">\n<Relationship Id=\"rId1\" Type=\"http://schemas.openxmlformats.org/officeDocument/2006/relationships/slideLayout\" Target=\"../slideLayouts/slideLayout1.xml\"/>\n<Relationship Id=\"rId2\" Type=\"http://schemas.openxmlformats.org/officeDocument/2006/relationships/theme\" Target=\"../theme/theme1.xml\"/>\n</Relationships>"@
}

/// The theme part.
pub open spec fn spec_theme_xml() -> Seq<char> {
    "<?xml version=\"1.0\" encoding=\"UTF-8\" standalone=\"yes\"?>\n<a:theme xmlns:a=\"http://schemas.openxmlformats.org/drawingml/2006/main\" name=\"Office Theme\">\n<a:themeElements>\n<a:clrScheme name=\"Office\"><a:dk1><a:sysClr val=\"windowText\" lastClr=\"000000\"/></a:dk1><a:lt1><a:sysClr val=\"window\" lastClr=\"FFFFFF\"/></a:lt1><a:dk2><a:srgbClr val=\"44546A\"/></a:dk2><a:lt2><a:srgbClr val=\"E7E6E6\"/></a:lt2><a:accent1><a:srgbClr val=\"4472C4\"/></a:accent1><a:accent2><a:srgbClr val=\"ED7D31\"/></a:accent2><a:accent3><a:srgbClr val=\"A5A5A5\"/></a:accent3><a:accent4><a:srgbClr val=\"FFC000\"/></a:accent4><a:accent5><a:srgbClr val=\"5B9BD5\"/></a:accent5><a:accent6><a:srgbClr val=\"70AD47\"/></a:accent6><a:hlink><a:srgbClr val=\"0563C1\"/></a:hlink><a:folHlink><a:srgbClr val=\"954F72\"/></a:folHlink></a:clrScheme>\n<a:fontScheme name=\"Office\"><a:majorFont><a:latin typeface=\"Calibri Light\"/><a:ea typeface=\"\"/><a:cs typeface=\"\"/></a:majorFont><a:minorFont><a:latin typeface=\"Calibri\"/><a:ea typeface=\"\"/><a:cs typeface=\"\"/></a:minorFont></a:fontScheme>\n<a:fmtScheme name=\"Office\"><a:fillStyleLst><a:solidFill><a:schemeClr val=\"phClr\"/></a:solidFill><a:gradFill rotWithShape=\"1\"><a:gsLst><a:gs pos=\"0\"><a:schemeClr val=\"phClr\"><a:tint val=\"50000\"/><a:satMod val=\"300000\"/></a:schemeClr></a:gs><a:gs pos=\"35000\"><a:schemeClr val=\"phClr\"><a:tint val=\"37000\"/><a:satMod val=\"300000\"/></a:schemeClr></a:gs><a:gs pos=\"100000\"><a:schemeClr val=\"phClr\"><a:tint val=\"15000\"/><a:satMod val=\"350000\"/></a:schemeClr></a:gs></a:gsLst><a:lin ang=\"16200000\" scaled=\"1\"/></a:gradFill><a:gradFill rotWithShape=\"1\"><a:gsLst><a:gs pos=\"0\"><a:schemeClr val=\"phClr\"><a:shade val=\"51000\"/><a:satMod val=\"130000\"/></a:schemeClr></a:gs><a:gs pos=\"80000\"><a:schemeClr val=\"phClr\"><a:shade val=\"93000\"/><a:satMod val=\"130000\"/></a:schemeClr></a:gs><a:gs pos=\"100000\"><a:schemeClr val=\"phClr\"><a:shade val=\"94000\"/><a:satMod val=\"135000\"/></a:schemeClr></a:gs></a:gsLst><a:lin ang=\"16200000\" scaled=\"0\"/></a:gradFill></a:fillStyleLst><a:lnStyleLst><a:ln w=\"6350\" cap=\"flat\" cmpd=\"sng\" algn=\"ctr\"><a:solidFill><a:schemeClr val=\"phClr\"/></a:solidFill><a:prstDash val=\"solid\"/><a:miter lim=\"800000\"/></a:ln><a:ln w=\"12700\" cap=\"flat\" cmpd=\"sng\" algn=\"ctr\"><a:solidFill><a:schemeClr val=\"phClr\"/></a:solidFill><a:prstDash val=\"solid\"/><a:miter lim=\"800000\"/></a:ln><a:ln w=\"19050\" cap=\"flat\" cmpd=\"sng\" algn=\"ctr\"><a:solidFill><a:schemeClr val=\"phClr\"/></a:solidFill><a:prstDash val=\"solid\"/><a:miter lim=\"800000\"/></a:ln></a:lnStyleLst><a:effectStyleLst><a:effectStyle><a:effectLst/></a:effectStyle><a:effectStyle><a:effectLst/></a:effectStyle><a:effectStyle><a:effectLst><a:outerShdw blurRad=\"57150\" dist=\"19050\" dir=\"5400000\" algn=\"ctr\" rotWithShape=\"0\"><a:srgbClr val=\"000000\"><a:alpha val=\"63000\"/></a:srgbClr></a:outerShdw></a:effectLst></a:effectStyle></a:effectStyleLst><a:bgFillStyleLst><a:solidFill><a:schemeClr val=\"phClr\"/></a:solidFill><a:solidFill><a:schemeClr val=\"phClr\"><a:tint val=\"95000\"/><a:satMod val=\"170000\"/></a:schemeClr></a:solidFill><a:gradFill rotWithShape=\"1\"><a:gsLst><a:gs pos=\"0\"><a:schemeClr val=\"phClr\"><a:tint val=\"93000\"/><a:satMod val=\"150000\"/><a:shade val=\"98000\"/><a:lumMod val=\"102000\"/></a:schemeClr></a:gs><a:gs pos=\"50000\"><a:schemeClr val=\"phClr\"><a:tint val=\"98000\"/><a:satMod val=\"130000\"/><a:shade val=\"90000\"/><a:lumMod val=\"103000\"/></a:schemeClr></a:gs><a:gs pos=\"100000\"><a:schemeClr val=\"phClr\"><a:shade val=\"63000\"/><a:satMod val=\"120000\"/></a:schemeClr></a:gs></a:gsLst><a:lin ang=\"5400000\" scaled=\"0\"/></a:gradFill></a:bgFillStyleLst></a:fmtScheme>\n</a:themeElements>\n<a:objectDefaults/>\n<a:extraClrSchemeLst/>\n</a:theme>"@
}

/// A zip archive being written in memory.  The writer itself is an outside
/// object; verified code sees it only through `archive_entries`.
#[verifier::external_body]
pub struct PptArchive {
    inner: zip::ZipWriter<std::io::Cursor<Vec<u8>>>,
}

/// The entries written to the archive so far: each a name and its bytes,
/// in order of writing.
pub uninterp spec fn archive_entries(a: PptArchive) -> Seq<(Seq<char>, Seq<u8>)>;

/// The bytes of the finished archive holding exactly `entries`, each
/// stored deflated with a fixed timestamp.  With the timestamp pinned the
/// archive is a function of the entries alone.
pub uninterp spec fn zip_archive_bytes(entries: Seq<(Seq<char>, Seq<u8>)>) -> Seq<u8>;

impl PptArchive {
    /// Relies on zip::ZipWriter::new over an in-memory cursor: a fresh
    /// writer holds no entries.
    #[verifier::external_body]
    pub(crate) fn new() -> (a: PptArchive)
        ensures
            archive_entries(a) == Seq::<(Seq<char>, Seq<u8>)>::empty(),
    {
        PptArchive { inner: zip::ZipWriter::new(std::io::Cursor::new(Vec::new())) }
    }

    /// Relies on zip::ZipWriter::start_file and std::io::Write::write_all:
    /// on success, one entry of the given name and bytes has been appended.
    /// The file options pin the timestamp to the format's epoch and the
    /// method to deflate, so the finished archive depends on the entries
    /// alone.
    #[verifier::external_body]
    pub(crate) fn add_entry(&mut self, name: &str, data: &[u8]) -> (ok: bool)
        ensures
            ok ==> archive_entries(*final(self)) == archive_entries(*old(self)).push(
                (name@, data@),
            ),
    {
        let options = zip::write::FileOptions::default().compression_method(
            zip::CompressionMethod::Deflated,
        ).last_modified_time(zip::DateTime::default());
        self.inner.start_file(name, options).is_ok() && self.inner.write_all(data).is_ok()
    }

    /// Relies on zip::ZipWriter::finish: on success the returned bytes are
    /// the whole archive of the entries written.
    #[verifier::external_body]
    pub(crate) fn finish(self) -> (r: Option<Vec<u8>>)
        ensures
            r is Some ==> r->0@ == zip_archive_bytes(archive_entries(self)),
    {
        let mut inner = self.inner;
        match inner.finish() {
            Ok(cursor) => Some(cursor.into_inner()),
            Err(_) => None,
        }
    }
}

/// The UTF-8 bytes of a part's text.
pub open spec fn part_bytes(s: Seq<char>) -> Seq<u8> {
    vstd::utf8::encode_utf8(s)
}

/// The 2-by-2 grid cells of a slide, in reading order: each an
/// `(x, y, width, height)` in EMU, inside half-inch margins with a
/// quarter-inch gap.
pub open spec fn spec_grid_cell(i: int) -> (i64, i64, i64, i64) {
    if i == 0 {
        (457200i64, 457200i64, 4000500i64, 2857500i64)
    } else if i == 1 {
        (4686300i64, 457200i64, 4000500i64, 2857500i64)
    } else if i == 2 {
        (457200i64, 3543300i64, 4000500i64, 2857500i64)
    } else {
        (4686300i64, 3543300i64, 4000500i64, 2857500i64)
    }
}

/// The first `count` grid cells.
pub open spec fn spec_grid_positions(count: nat) -> Seq<(i64, i64, i64, i64)> {
    Seq::new(count, |i: int| spec_grid_cell(i))
}

/// The global image numbers shown on slide `s` (1-based): four per slide,
/// the last slide taking what remains of `n` images.
pub open spec fn spec_slide_image_ids(n: nat, s: nat) -> Seq<usize> {
    Seq::new(spec_chunk_len(n, s), |i: int| (((s - 1) * 4 + i + 1) as usize))
}

/// How many images slide `s` shows.
pub open spec fn spec_chunk_len(n: nat, s: nat) -> nat {
    if n >= s * 4 {
        4nat
    } else {
        (n - (s - 1) * 4) as nat
    }
}

/// The relationship and content entries of slides 1 through `s`.
pub open spec fn spec_slide_entries(n: nat, s: nat) -> Seq<(Seq<char>, Seq<u8>)>
    decreases s,
{
    if s == 0 {
        Seq::empty()
    } else {
        spec_slide_entries(n, (s - 1) as nat) + seq![
            (
                "ppt/slides/_rels/slide"@ + dec_digits(s) + ".xml.rels"@,
                part_bytes(spec_slide_rels_xml(spec_slide_image_ids(n, s))),
            ),
            (
                "ppt/slides/slide"@ + dec_digits(s) + ".xml"@,
                part_bytes(
                    spec_slide_xml(
                        spec_grid_positions(spec_chunk_len(n, s)),
                        spec_chunk_len(n, s),
                    ),
                ),
            ),
        ]
    }
}

/// The media entries of the first `k` images.
pub open spec fn spec_media_entries(images: Seq<Seq<u8>>, k: nat) -> Seq<(Seq<char>, Seq<u8>)>
    decreases k,
{
    if k == 0 {
        Seq::empty()
    } else {
        spec_media_entries(images, (k - 1) as nat) + seq![
            ("ppt/media/image"@ + dec_digits(k) + ".png"@, images[k - 1]),
        ]
    }
}

/// Every entry of the deck's archive, in writing order: the fixed package
/// parts, two parts per slide, the layout, master, theme and document
/// properties, and one media entry per image.
pub open spec fn spec_ppt_entries(images: Seq<Seq<u8>>, title: Seq<char>) -> Seq<
    (Seq<char>, Seq<u8>),
> {
    let n = images.len();
    let slides = ((n + 3) / 4) as nat;
    seq![
        ("[Content_Types].xml"@, part_bytes(spec_content_types_xml(slides))),
        ("_rels/.rels"@, part_bytes(spec_rels_xml())),
        ("ppt/_rels/presentation.xml.rels"@, part_bytes(spec_presentation_rels_xml(slides))),
        ("ppt/presentation.xml"@, part_bytes(spec_presentation_xml(slides))),
    ] + spec_slide_entries(n, slides) + seq![
        ("ppt/slideLayouts/slideLayout1.xml"@, part_bytes(spec_slide_layout_xml())),
        ("ppt/slideLayouts/_rels/slideLayout1.xml.rels"@, part_bytes(spec_layout_rels_xml())),
        ("ppt/slideMasters/slideMaster1.xml"@, part_bytes(spec_slide_master_xml())),
        ("ppt/slideMasters/_rels/slideMaster1.xml.rels"@, part_bytes(spec_master_rels_xml())),
        ("ppt/theme/theme1.xml"@, part_bytes(spec_theme_xml())),
        ("docProps/core.xml"@, part_bytes(spec_core_props_xml(title))),
        ("docProps/app.xml"@, part_bytes(spec_app_props_xml(slides))),
    ] + spec_media_entries(images, n)
}

impl PptGenerator {
    /// The finished deck: the given images placed four to a slide in a
    /// 2-by-2 grid, packaged with every part of the container.  On success
    /// the bytes are the archive of exactly the entries `spec_ppt_entries`
    /// lists; a failure of the archive writer yields `None`.
    pub fn generate_ppt_from_bytes(image_data: &Vec<Vec<u8>>, title: &str) -> (r: Option<Vec<u8>>)
        requires
            image_data@.len() <= 0xffff_0000,
        ensures
            r is Some ==> r->0@ == zip_archive_bytes(
                spec_ppt_entries(image_data.deep_view(), title@),
            ),
    {
        let n = image_data.len();
        let slide_count = (n + 3) / 4;
        let ghost images = image_data.deep_view();
        let ghost all_entries = spec_ppt_entries(images, title@);
        proof {
            assert(images.len() == n);
        }
        let mut archive = PptArchive::new();
        let mut ok: bool = true;

        let content_types = Self::content_types_xml(slide_count, n);
        ok = ok && archive.add_entry("[Content_Types].xml", content_types.as_str().as_bytes());
        ok = ok && archive.add_entry("_rels/.rels", Self::rels_xml().as_bytes());
        let pres_rels = Self::presentation_rels_xml(slide_count);
        ok = ok && archive.add_entry(
            "ppt/_rels/presentation.xml.rels",
            pres_rels.as_str().as_bytes(),
        );
        let pres = Self::presentation_xml(title, slide_count);
        ok = ok && archive.add_entry("ppt/presentation.xml", pres.as_str().as_bytes());
        if !ok {
            return None;
        }
        let ghost head = seq![
            ("[Content_Types].xml"@, part_bytes(spec_content_types_xml(slide_count as nat))),
            ("_rels/.rels"@, part_bytes(spec_rels_xml())),
            (
                "ppt/_rels/presentation.xml.rels"@,
                part_bytes(spec_presentation_rels_xml(slide_count as nat)),
            ),
            ("ppt/presentation.xml"@, part_bytes(spec_presentation_xml(slide_count as nat))),
        ];
        proof {
            assert(archive_entries(archive) =~= head + spec_slide_entries(n as nat, 0));
        }
        let mut s: usize = 1;
        while s <= slide_count
            invariant
                n == image_data@.len(),
                n <= 0xffff_0000,
                images == image_data.deep_view(),
                slide_count == (n + 3) / 4,
                1 <= s <= slide_count + 1,
                archive_entries(archive) == head + spec_slide_entries(n as nat, (s - 1) as nat),
            decreases slide_count + 1 - s,
        {
            let idx0 = (s - 1) * 4;
            let chunk = if n - idx0 >= 4 {
                4
            } else {
                n - idx0
            };
            proof {
                assert(chunk as nat == spec_chunk_len(n as nat, s as nat));
            }
            let mut ids: Vec<usize> = Vec::new();
            let mut positions: Vec<(i64, i64, i64, i64)> = Vec::new();
            let mut j: usize = 0;
            while j < chunk
                invariant
                    idx0 == (s - 1) * 4,
                    chunk <= 4,
                    idx0 + chunk <= n,
                    n <= 0xffff_0000,
                    j <= chunk,
                    ids@.len() == j,
                    positions@.len() == j,
                    forall|i: int| 0 <= i < j ==> #[trigger] ids@[i] == idx0 + i + 1,
                    forall|i: int| 0 <= i < j ==> #[trigger] positions@[i] == spec_grid_cell(i),
                decreases chunk - j,
            {
                ids.push(idx0 + j + 1);
                if j == 0 {
                    positions.push((457200i64, 457200i64, 4000500i64, 2857500i64));
                } else if j == 1 {
                    positions.push((4686300i64, 457200i64, 4000500i64, 2857500i64));
                } else if j == 2 {
                    positions.push((457200i64, 3543300i64, 4000500i64, 2857500i64));
                } else {
                    positions.push((4686300i64, 3543300i64, 4000500i64, 2857500i64));
                }
                j = j + 1;
            }
            proof {
                assert(ids@ =~= spec_slide_image_ids(n as nat, s as nat));
                assert(positions@ =~= spec_grid_positions(spec_chunk_len(n as nat, s as nat)));
            }
            let num = u64_to_string(s as u64);
            let mut rels_name = String::from_str("ppt/slides/_rels/slide");
            rels_name.append(num.as_str());
            rels_name.append(".xml.rels");
            let rels = Self::slide_rels_xml(&ids);
            let ok1 = archive.add_entry(rels_name.as_str(), rels.as_str().as_bytes());
            if !ok1 {
                return None;
            }
            let mut slide_name = String::from_str("ppt/slides/slide");
            slide_name.append(num.as_str());
            slide_name.append(".xml");
            let slide = Self::slide_xml(s, &ids, &positions);
            let ok2 = archive.add_entry(slide_name.as_str(), slide.as_str().as_bytes());
            if !ok2 {
                return None;
            }
            proof {
                assert(archive_entries(archive) =~= head + spec_slide_entries(
                    n as nat,
                    s as nat,
                ));
            }
            s = s + 1;
        }
        let ghost mid = head + spec_slide_entries(n as nat, ((n + 3) / 4) as nat);

        ok = archive.add_entry(
            "ppt/slideLayouts/slideLayout1.xml",
            Self::slide_layout_xml().as_bytes(),
        );
        ok = ok && archive.add_entry(
            "ppt/slideLayouts/_rels/slideLayout1.xml.rels",
            Self::layout_rels_xml().as_bytes(),
        );
        ok = ok && archive.add_entry(
            "ppt/slideMasters/slideMaster1.xml",
            Self::slide_master_xml().as_bytes(),
        );
        ok = ok && archive.add_entry(
            "ppt/slideMasters/_rels/slideMaster1.xml.rels",
            Self::master_rels_xml().as_bytes(),
        );
        ok = ok && archive.add_entry("ppt/theme/theme1.xml", Self::theme_xml().as_bytes());
        let core = Self::core_props_xml(title);
        ok = ok && archive.add_entry("docProps/core.xml", core.as_str().as_bytes());
        let app = Self::app_props_xml(slide_count);
        ok = ok && archive.add_entry("docProps/app.xml", app.as_str().as_bytes());
        if !ok {
            return None;
        }
        let ghost fixed_tail = seq![
            ("ppt/slideLayouts/slideLayout1.xml"@, part_bytes(spec_slide_layout_xml())),
            (
                "ppt/slideLayouts/_rels/slideLayout1.xml.rels"@,
                part_bytes(spec_layout_rels_xml()),
            ),
            ("ppt/slideMasters/slideMaster1.xml"@, part_bytes(spec_slide_master_xml())),
            ("ppt/slideMasters/_rels/slideMaster1.xml.rels"@, part_bytes(spec_master_rels_xml())),
            ("ppt/theme/theme1.xml"@, part_bytes(spec_theme_xml())),
            ("docProps/core.xml"@, part_bytes(spec_core_props_xml(title@))),
            ("docProps/app.xml"@, part_bytes(spec_app_props_xml(((n + 3) / 4) as nat))),
        ];
        proof {
            assert(archive_entries(archive) =~= mid + fixed_tail + spec_media_entries(
                images,
                0,
            ));
        }
        let mut m: usize = 0;
        while m < n
            invariant
                n == image_data@.len(),
                n <= 0xffff_0000,
                images == image_data.deep_view(),
                m <= n,
                archive_entries(archive) == mid + fixed_tail + spec_media_entries(
                    images,
                    m as nat,
                ),
            decreases n - m,
        {
            let num = u64_to_string((m as u64) + 1);
            let mut media_name = String::from_str("ppt/media/image");
            media_name.append(num.as_str());
            media_name.append(".png");
            let okm = archive.add_entry(media_name.as_str(), image_data[m].as_slice());
            if !okm {
                return None;
            }
            proof {
                assert(image_data@[m as int]@ == images[m as int]);
                assert(archive_entries(archive) =~= mid + fixed_tail + spec_media_entries(
                    images,
                    (m + 1) as nat,
                ));
            }
            m = m + 1;
        }
        proof {
            assert(archive_entries(archive) =~= all_entries);
        }
        archive.finish()
    }
}

} // verus!
