use plust_core::manifest::{get_representations, get_segment_template, Manifest, ManifestError, XmlAttribute, XmlNode};

const XML: &str = r#"<?xml version="1.0" encoding="utf-8"?>
<MPD xmlns="urn:mpeg:dash:schema:mpd:2011" mediaPresentationDuration="PT0H0M30.000S" type="static">
  <Period>
    <AdaptationSet mimeType="video/mp4">
      <SegmentTemplate initialization="$RepresentationID$/init.mp4" media="$RepresentationID$/seg-$Number$.m4s" startNumber="1" timescale="90000" duration="900000"/>
      <Representation id="video/avc1" bandwidth="500000" codecs="avc1.64001f" width="1280" height="720"/>
      <Representation id="video/low" bandwidth="+120000" codecs="avc1.42c01e" width="640" height="360"/>
    </AdaptationSet>
  </Period>
</MPD>"#;

fn parse(xml: &str) -> Result<Manifest, ManifestError> {
    Manifest::parse_document_checked("http://localhost:8080", xml).expect("manifest is complete")
}

#[test]
fn parses_template_and_representations() {
    let m = parse(XML).ok().unwrap();
    assert_eq!(m.base_url, "http://localhost:8080");
    assert_eq!(m.mpd.media_presentation_duration, "PT0H0M30.000S");
    let t = &m.segment_template;
    assert_eq!(t.initialization, "$RepresentationID$/init.mp4");
    assert_eq!(t.media, "$RepresentationID$/seg-$Number$.m4s");
    assert_eq!((t.start_number, t.timescale), (1, 90000));
    assert_eq!(t.duration, "900000");
    assert_eq!(m.representations.len(), 2);
    let r = &m.representations[0];
    assert_eq!((r.id.as_str(), r.bandwidth, r.codecs.as_str()), ("video/avc1", 500000, "avc1.64001f"));
    assert_eq!((r.width.as_str(), r.height.as_str()), ("1280", "720"));
    assert_eq!(m.representations[1].bandwidth, 120000);
}

#[test]
fn paths_fill_in_the_template() {
    let m = parse(XML).ok().unwrap();
    let rep = &m.representations[0];
    assert_eq!(m.init_path(rep), "http://localhost:8080/video/avc1/init.mp4");
    assert_eq!(m.segment_path(rep, 1), "http://localhost:8080/video/avc1/seg-1.m4s");
    assert_eq!(m.segment_path(rep, -12), "http://localhost:8080/video/avc1/seg--12.m4s");
}

#[test]
fn template_defaults() {
    let xml = r#"<MPD mediaPresentationDuration="PT5S"><SegmentTemplate startNumber="x"/></MPD>"#;
    let m = parse(xml).ok().unwrap();
    let t = &m.segment_template;
    assert_eq!((t.start_number, t.timescale), (1, 1));
    assert_eq!((t.initialization.as_str(), t.media.as_str(), t.duration.as_str()), ("", "", ""));
    assert!(m.representations.is_empty());
    assert_eq!(m.init_path(&plust_core::manifest::Representation {
        id: "a".to_string(),
        bandwidth: 1,
        codecs: String::new(),
        height: String::new(),
        width: String::new(),
    }), "http://localhost:8080/");
}

#[test]
fn missing_duration_is_an_error() {
    let xml = r#"<MPD><SegmentTemplate/></MPD>"#;
    let err = parse(xml).err().unwrap();
    assert!(matches!(err, ManifestError::MissingDuration));
    assert_eq!(err.message(), "Missing duration");
    // The duration is checked before the template is looked for.
    assert!(matches!(parse("<MPD/>"), Err(ManifestError::MissingDuration)));
}

#[test]
fn malformed_xml_is_an_error() {
    let err = parse("<MPD").err().unwrap();
    assert!(matches!(err, ManifestError::Xml(_)));
    assert!(!err.message().is_empty());
}

#[test]
fn incomplete_documents_are_refused() {
    // No MPD element.
    assert!(Manifest::parse_document_checked("b", "<Period/>").is_none());
    // No segment template.
    assert!(Manifest::parse_document_checked("b", r#"<MPD mediaPresentationDuration="PT1S"/>"#).is_none());
    // A representation without a codecs attribute.
    let xml = r#"<MPD mediaPresentationDuration="PT1S"><SegmentTemplate/><Representation id="a" bandwidth="1" width="1" height="1"/></MPD>"#;
    assert!(Manifest::parse_document_checked("b", xml).is_none());
    // A bandwidth that is not an i32.
    let xml = r#"<MPD mediaPresentationDuration="PT1S"><SegmentTemplate/><Representation id="a" bandwidth="99999999999" codecs="c" width="1" height="1"/></MPD>"#;
    assert!(Manifest::parse_document_checked("b", xml).is_none());
}

#[test]
fn document_parse_agrees_with_the_checked_form() {
    let m = Manifest::parse_document("http://h", XML).ok().unwrap();
    assert_eq!(m.base_url, "http://h");
    assert_eq!(m.representations.len(), 2);
}

#[test]
fn duration_is_kept_as_written() {
    let xml = r#"<MPD mediaPresentationDuration="thirty seconds"><SegmentTemplate/></MPD>"#;
    let m = parse(xml).ok().unwrap();
    assert_eq!(m.mpd.media_presentation_duration, "thirty seconds");
}

#[test]
fn readers_take_the_document_nodes() {
    let attr = |name: &str, value: &str| XmlAttribute { name: name.to_string(), value: value.to_string() };
    let element = |name: &str, attributes: Vec<XmlAttribute>| XmlNode { is_element: true, name: name.to_string(), attributes };
    let template = element("SegmentTemplate", vec![attr("media", "m$Number$"), attr("timescale", "-3")]);
    let t = get_segment_template(&template);
    assert_eq!((t.media.as_str(), t.timescale, t.start_number), ("m$Number$", -3, 1));
    let rep = |id: &str| {
        element(
            "Representation",
            vec![attr("id", id), attr("bandwidth", "7"), attr("codecs", "c"), attr("width", "1"), attr("height", "2")],
        )
    };
    let nodes = vec![rep("a"), XmlNode { is_element: false, name: String::new(), attributes: vec![] }, rep("b")];
    let reps = get_representations(&nodes).unwrap();
    assert_eq!(reps.iter().map(|r| r.id.as_str()).collect::<Vec<_>>(), vec!["a", "b"]);
    let mut broken = rep("c");
    broken.attributes.remove(1);
    assert!(get_representations(&vec![rep("a"), broken]).is_none());
}
