use vstd::prelude::*;

use crate::text::{i32_to_decimal, parse_i32, replace_all, str_eq};

verus! {

/// An attribute of an XML element: its local name and its value.
pub struct XmlAttribute {
    pub name: String,
    pub value: String,
}

/// A node of an XML document, as the manifest logic reads it: whether it
/// is an element, its local tag name (empty for other nodes) and its
/// attributes in document order.
pub struct XmlNode {
    pub is_element: bool,
    pub name: String,
    pub attributes: Vec<XmlAttribute>,
}

/// The contents of an `XmlNode`.
pub struct XmlNodeView {
    pub is_element: bool,
    pub name: Seq<char>,
    pub attributes: Seq<(Seq<char>, Seq<char>)>,
}

impl View for XmlNode {
    type V = XmlNodeView;

    open spec fn view(&self) -> XmlNodeView {
        XmlNodeView {
            is_element: self.is_element,
            name: self.name@,
            attributes: self.attributes@.map_values(|a: XmlAttribute| (a.name@, a.value@)),
        }
    }
}

/// The contents of a sequence of nodes.
pub open spec fn nodes_view(nodes: Seq<XmlNode>) -> Seq<XmlNodeView> {
    nodes.map_values(|n: XmlNode| n@)
}

/// What parsing an XML text gives: its nodes in document order (the
/// document's root node first), or the parser's error message.
pub uninterp spec fn parsed_xml(text: Seq<char>) -> Result<Seq<XmlNodeView>, Seq<char>>;

/// Parses an XML text with `roxmltree::Document::parse` and lists its
/// descendants in document order. Claimed: the result is `parsed_xml` of
/// the text; a node that is not an element has an empty name and no
/// attributes (as `tag_name` and `attributes` return them).
#[verifier::external_body]
fn parse_xml(xml: &str) -> (nodes: Result<Vec<XmlNode>, String>)
    ensures
        match nodes {
            Ok(v) => {
                &&& parsed_xml(xml@) == Ok::<Seq<XmlNodeView>, Seq<char>>(nodes_view(v@))
                &&& forall|i: int| 0 <= i < v@.len() && !(#[trigger] v@[i]).is_element
                    ==> v@[i].name@.len() == 0 && v@[i].attributes@.len() == 0
            },
            Err(m) => parsed_xml(xml@) == Err::<Seq<XmlNodeView>, Seq<char>>(m@),
        },
{
    match roxmltree::Document::parse(xml) {
        Ok(doc) => Ok(doc.descendants().map(|n| XmlNode {
            is_element: n.is_element(),
            name: n.tag_name().name().to_string(),
            attributes: n.attributes().map(|a| XmlAttribute {
                name: a.name().to_string(),
                value: a.value().to_string(),
            }).collect(),
        }).collect()),
        Err(e) => Err(e.to_string()),
    }
}

/// The value of the first attribute named `key`, from position `i` on.
pub open spec fn attr_from(attrs: Seq<(Seq<char>, Seq<char>)>, key: Seq<char>, i: int) -> Option<Seq<char>>
    decreases attrs.len() - i,
{
    if i < 0 || i >= attrs.len() {
        None
    } else if attrs[i].0 == key {
        Some(attrs[i].1)
    } else {
        attr_from(attrs, key, i + 1)
    }
}

/// The value of an element's attribute `key` (the first one of that name).
pub open spec fn attr_of(n: XmlNodeView, key: Seq<char>) -> Option<Seq<char>> {
    attr_from(n.attributes, key, 0)
}

/// Where the first element named `tag` is, from position `i` on.
pub open spec fn element_from(nodes: Seq<XmlNodeView>, tag: Seq<char>, i: int) -> Option<int>
    decreases nodes.len() - i,
{
    if i < 0 || i >= nodes.len() {
        None
    } else if nodes[i].is_element && nodes[i].name == tag {
        Some(i)
    } else {
        element_from(nodes, tag, i + 1)
    }
}

/// Where the first element named `tag` is.
pub open spec fn first_element(nodes: Seq<XmlNodeView>, tag: Seq<char>) -> Option<int> {
    element_from(nodes, tag, 0)
}

/// An element found from position `i` is at or after `i`, inside the
/// sequence, and has the wanted name.
pub proof fn lemma_element_from(nodes: Seq<XmlNodeView>, tag: Seq<char>, i: int)
    ensures
        element_from(nodes, tag, i) matches Some(j) ==> i <= j < nodes.len() && nodes[j].is_element && nodes[j].name == tag,
    decreases nodes.len() - i,
{
    if !(i < 0 || i >= nodes.len()) && !(nodes[i].is_element && nodes[i].name == tag) {
        lemma_element_from(nodes, tag, i + 1);
    }
}

/// The attribute scan from position `i` gives the value of the first
/// attribute named `key` at or after `i`, and nothing where there is none.
proof fn lemma_attr_from(attrs: Seq<(Seq<char>, Seq<char>)>, key: Seq<char>, i: int)
    requires
        0 <= i,
    ensures
        match attr_from(attrs, key, i) {
            Some(v) => exists|j: int|
                i <= j < attrs.len() && #[trigger] attrs[j] == (key, v) && forall|m: int| i <= m < j ==> attrs[m].0 != key,
            None => forall|m: int| i <= m < attrs.len() ==> attrs[m].0 != key,
        },
    decreases attrs.len() - i,
{
    if i < attrs.len() {
        if attrs[i].0 == key {
            assert(attrs[i] == (key, attrs[i].1));
        } else {
            lemma_attr_from(attrs, key, i + 1);
        }
    }
}

/// An element's attribute `key` is the value of its first attribute of
/// that name in document order; it is absent exactly when no attribute has
/// that name.
pub proof fn lemma_attr_of(n: XmlNodeView, key: Seq<char>)
    ensures
        match attr_of(n, key) {
            Some(v) => exists|j: int|
                0 <= j < n.attributes.len() && #[trigger] n.attributes[j] == (key, v) && forall|m: int|
                    0 <= m < j ==> n.attributes[m].0 != key,
            None => forall|m: int| 0 <= m < n.attributes.len() ==> n.attributes[m].0 != key,
        },
{
    lemma_attr_from(n.attributes, key, 0);
}

/// The scan from position `i` passes over no element of the wanted name:
/// where it finds one at `j`, none lies in `i..j`; where it finds none,
/// none lies from `i` on.
proof fn lemma_element_from_skips(nodes: Seq<XmlNodeView>, tag: Seq<char>, i: int)
    requires
        0 <= i,
    ensures
        match element_from(nodes, tag, i) {
            Some(j) => forall|k: int| i <= k < j ==> !(nodes[k].is_element && nodes[k].name == tag),
            None => forall|k: int| i <= k < nodes.len() ==> !(nodes[k].is_element && nodes[k].name == tag),
        },
    decreases nodes.len() - i,
{
    if i < nodes.len() && !(nodes[i].is_element && nodes[i].name == tag) {
        lemma_element_from_skips(nodes, tag, i + 1);
    }
}

/// The element found for a name is the first element of that name in
/// document order; none is found exactly when no element has that name.
pub proof fn lemma_first_element(nodes: Seq<XmlNodeView>, tag: Seq<char>)
    ensures
        match first_element(nodes, tag) {
            Some(i) => {
                &&& 0 <= i < nodes.len()
                &&& nodes[i].is_element
                &&& nodes[i].name == tag
                &&& forall|j: int| 0 <= j < i ==> !(nodes[j].is_element && nodes[j].name == tag)
            },
            None => forall|j: int| 0 <= j < nodes.len() ==> !(nodes[j].is_element && nodes[j].name == tag),
        },
{
    lemma_element_from(nodes, tag, 0);
    lemma_element_from_skips(nodes, tag, 0);
}

/// Finds the value of an element's attribute `key`.
fn find_attribute<'a>(node: &'a XmlNode, key: &str) -> (value: Option<&'a String>)
    ensures
        match value {
            Some(v) => attr_of(node@, key@) == Some(v@),
            None => attr_of(node@, key@) is None,
        },
{
    let ghost attrs = node@.attributes;
    let mut i: usize = 0;
    while i < node.attributes.len()
        invariant
            attrs == node@.attributes,
            attrs.len() == node.attributes@.len(),
            i <= attrs.len(),
            attr_from(attrs, key@, i as int) == attr_of(node@, key@),
        decreases attrs.len() - i,
    {
        let a = &node.attributes[i];
        assert(attrs[i as int] == (a.name@, a.value@));
        if str_eq(a.name.as_str(), key) {
            return Some(&a.value);
        }
        i = i + 1;
    }
    None
}

/// Finds the first element named `tag`.
fn find_element(nodes: &Vec<XmlNode>, tag: &str) -> (at: Option<usize>)
    ensures
        at matches Some(i) ==> i < nodes@.len(),
        match at {
            Some(i) => first_element(nodes_view(nodes@), tag@) == Some(i as int),
            None => first_element(nodes_view(nodes@), tag@) is None,
        },
{
    let ghost v = nodes_view(nodes@);
    let mut i: usize = 0;
    while i < nodes.len()
        invariant
            v == nodes_view(nodes@),
            v.len() == nodes@.len(),
            i <= v.len(),
            element_from(v, tag@, i as int) == first_element(v, tag@),
        decreases v.len() - i,
    {
        assert(v[i as int] == nodes@[i as int]@);
        if nodes[i].is_element && str_eq(nodes[i].name.as_str(), tag) {
            proof {
                lemma_element_from(v, tag@, 0);
            }
            return Some(i);
        }
        i = i + 1;
    }
    None
}


/// The `MPD` element's presentation duration, as written (ISO 8601).
pub struct Mpd {
    pub media_presentation_duration: String,
}

/// One encoding of the content that the manifest offers.
pub struct Representation {
    pub id: String,
    pub bandwidth: i32,
    pub codecs: String,
    pub height: String,
    pub width: String,
}

/// How segment URLs are formed and how long segments last.
pub struct SegmentTemplate {
    /// Path of the initialization segment; `$RepresentationID$` stands for
    /// a representation's id.
    pub initialization: String,
    /// Number of the first media segment.
    pub start_number: i32,
    /// Path of a media segment; `$RepresentationID$` and `$Number$` stand
    /// for a representation's id and the segment's number.
    pub media: String,
    /// Ticks per second of `duration`.
    pub timescale: i32,
    /// Duration of a segment, in ticks, as written.
    pub duration: String,
}

/// A DASH manifest: where the content is and how it is cut. The segment
/// count, which takes floating-point arithmetic on the durations, is not
/// part of it.
pub struct Manifest {
    pub mpd: Mpd,
    pub base_url: String,
    pub representations: Vec<Representation>,
    pub segment_template: SegmentTemplate,
}

/// Why a manifest was refused.
pub enum ManifestError {
    /// The text is not well-formed XML; the parser's message.
    Xml(String),
    /// The `MPD` element has no `mediaPresentationDuration`.
    MissingDuration,
}

impl ManifestError {
    /// The error's message.
    pub fn message(&self) -> (text: String)
        ensures
            match self {
                ManifestError::Xml(m) => text@ == m@,
                ManifestError::MissingDuration => text@ == "Missing duration"@,
            },
    {
        match self {
            ManifestError::Xml(m) => m.clone(),
            ManifestError::MissingDuration => String::from_str("Missing duration"),
        }
    }
}

/// The contents of a representation: id, bandwidth, codecs, width, height.
pub open spec fn representation_view(r: Representation) -> (Seq<char>, i32, Seq<char>, Seq<char>, Seq<char>) {
    (r.id@, r.bandwidth, r.codecs@, r.width@, r.height@)
}

/// What a `Representation` element describes; `None` where it lacks an
/// attribute or its bandwidth is not a decimal `i32`.
pub open spec fn representation_of(n: XmlNodeView) -> Option<(Seq<char>, i32, Seq<char>, Seq<char>, Seq<char>)> {
    match (attr_of(n, "id"@), attr_of(n, "bandwidth"@), attr_of(n, "codecs"@), attr_of(n, "width"@), attr_of(n, "height"@)) {
        (Some(id), Some(bw), Some(codecs), Some(width), Some(height)) => match crate::text::parse_i32_spec(bw) {
            Some(bandwidth) => Some((id, bandwidth, codecs, width, height)),
            None => None,
        },
        _ => None,
    }
}

/// The node is a `Representation` element.
pub open spec fn is_representation(n: XmlNodeView) -> bool {
    n.is_element && n.name == "Representation"@
}

/// The representations of the `Representation` elements from position `i`
/// on, in document order; `None` where one of them is incomplete.
pub open spec fn representations_from(nodes: Seq<XmlNodeView>, i: int) -> Option<Seq<(Seq<char>, i32, Seq<char>, Seq<char>, Seq<char>)>>
    decreases nodes.len() - i,
{
    if i < 0 || i >= nodes.len() {
        Some(Seq::empty())
    } else {
        match representations_from(nodes, i + 1) {
            None => None,
            Some(rest) => if is_representation(nodes[i]) {
                match representation_of(nodes[i]) {
                    Some(r) => Some(seq![r] + rest),
                    None => None,
                }
            } else {
                Some(rest)
            },
        }
    }
}

/// An attribute's text, or empty where it is absent.
pub open spec fn text_or_empty(v: Option<Seq<char>>) -> Seq<char> {
    match v {
        Some(s) => s,
        None => Seq::empty(),
    }
}

/// An attribute's decimal value, or 1 where it is absent or not a number.
pub open spec fn int_or_one(v: Option<Seq<char>>) -> i32 {
    match v {
        Some(s) => match crate::text::parse_i32_spec(s) {
            Some(x) => x,
            None => 1,
        },
        None => 1,
    }
}

/// `t` is what the `SegmentTemplate` element `n` describes.
pub open spec fn template_matches(t: SegmentTemplate, n: XmlNodeView) -> bool {
    &&& t.initialization@ == text_or_empty(attr_of(n, "initialization"@))
    &&& t.start_number == int_or_one(attr_of(n, "startNumber"@))
    &&& t.timescale == int_or_one(attr_of(n, "timescale"@))
    &&& t.media@ == text_or_empty(attr_of(n, "media"@))
    &&& t.duration@ == text_or_empty(attr_of(n, "duration"@))
}

/// Reads a segment template from its element: missing texts are empty,
/// missing or unreadable numbers are 1.
pub fn get_segment_template(node: &XmlNode) -> (template: SegmentTemplate)
    ensures
        template_matches(template, node@),
{
    let initialization = match find_attribute(node, "initialization") {
        Some(v) => v.clone(),
        None => String::new(),
    };
    let start_number = match find_attribute(node, "startNumber") {
        Some(v) => match parse_i32(v.as_str()) {
            Some(x) => x,
            None => 1,
        },
        None => 1,
    };
    let timescale = match find_attribute(node, "timescale") {
        Some(v) => match parse_i32(v.as_str()) {
            Some(x) => x,
            None => 1,
        },
        None => 1,
    };
    let media = match find_attribute(node, "media") {
        Some(v) => v.clone(),
        None => String::new(),
    };
    let duration = match find_attribute(node, "duration") {
        Some(v) => v.clone(),
        None => String::new(),
    };
    SegmentTemplate { initialization, start_number, media, timescale, duration }
}

/// Reads one `Representation` element; `None` where it is incomplete.
pub fn get_representation(node: &XmlNode) -> (rep: Option<Representation>)
    ensures
        match rep {
            Some(r) => representation_of(node@) == Some(representation_view(r)),
            None => representation_of(node@) is None,
        },
{
    let id = match find_attribute(node, "id") {
        Some(v) => v.clone(),
        None => return None,
    };
    let bandwidth = match find_attribute(node, "bandwidth") {
        Some(v) => match parse_i32(v.as_str()) {
            Some(x) => x,
            None => return None,
        },
        None => return None,
    };
    let codecs = match find_attribute(node, "codecs") {
        Some(v) => v.clone(),
        None => return None,
    };
    let width = match find_attribute(node, "width") {
        Some(v) => v.clone(),
        None => return None,
    };
    let height = match find_attribute(node, "height") {
        Some(v) => v.clone(),
        None => return None,
    };
    Some(Representation { id, bandwidth, codecs, width, height })
}


/// Reads every `Representation` element, in document order; `None` where
/// one of them is incomplete.
pub fn get_representations(nodes: &Vec<XmlNode>) -> (reps: Option<Vec<Representation>>)
    ensures
        match reps {
            Some(r) => representations_from(nodes_view(nodes@), 0) == Some(
                r@.map_values(|x: Representation| representation_view(x)),
            ),
            None => representations_from(nodes_view(nodes@), 0) is None,
        },
{
    let ghost v = nodes_view(nodes@);
    let mut reps: Vec<Representation> = Vec::new();
    let mut i: usize = 0;
    while i < nodes.len()
        invariant
            v == nodes_view(nodes@),
            v.len() == nodes@.len(),
            i <= v.len(),
            representations_from(v, 0) == (match representations_from(v, i as int) {
                None => None,
                Some(rest) => Some(reps@.map_values(|x: Representation| representation_view(x)) + rest),
            }),
        decreases v.len() - i,
    {
        let ghost acc = reps@.map_values(|x: Representation| representation_view(x));
        assert(v[i as int] == nodes@[i as int]@);
        if nodes[i].is_element && str_eq(nodes[i].name.as_str(), "Representation") {
            match get_representation(&nodes[i]) {
                Some(r) => {
                    let ghost rv = representation_view(r);
                    reps.push(r);
                    proof {
                        assert(reps@.map_values(|x: Representation| representation_view(x)) =~= acc.push(rv));
                        match representations_from(v, i + 1) {
                            Some(rest) => {
                                assert(acc + (seq![rv] + rest) =~= acc.push(rv) + rest);
                            },
                            None => {},
                        }
                    }
                },
                None => return None,
            }
        }
        i = i + 1;
    }
    proof {
        assert(reps@.map_values(|x: Representation| representation_view(x)) + Seq::<(Seq<char>, i32, Seq<char>, Seq<char>, Seq<char>)>::empty()
            =~= reps@.map_values(|x: Representation| representation_view(x)));
    }
    Some(reps)
}


/// A document the manifest logic can read through: it has an `MPD`
/// element, and where that element holds a duration there are a
/// `SegmentTemplate` element and only complete `Representation` elements.
pub open spec fn manifest_nodes_complete(nodes: Seq<XmlNodeView>) -> bool {
    match first_element(nodes, "MPD"@) {
        None => false,
        Some(m) => attr_of(nodes[m], "mediaPresentationDuration"@) is None || (first_element(
            nodes,
            "SegmentTemplate"@,
        ) is Some && representations_from(nodes, 0) is Some),
    }
}

/// `r` is what the manifest logic makes of `nodes` under `base_url`: an
/// error where the `MPD` element holds no duration, else the duration, the
/// base URL, the first segment template and the representations.
pub open spec fn manifest_matches(base_url: Seq<char>, nodes: Seq<XmlNodeView>, r: Result<Manifest, ManifestError>) -> bool {
    match first_element(nodes, "MPD"@) {
        None => false,
        Some(mpd) => match r {
            Err(e) => e is MissingDuration && attr_of(nodes[mpd], "mediaPresentationDuration"@) is None,
            Ok(m) => {
                &&& attr_of(nodes[mpd], "mediaPresentationDuration"@) == Some(m.mpd.media_presentation_duration@)
                &&& m.base_url@ == base_url
                &&& first_element(nodes, "SegmentTemplate"@) matches Some(t) && template_matches(
                    m.segment_template,
                    nodes[t],
                )
                &&& representations_from(nodes, 0) == Some(
                    m.representations@.map_values(|x: Representation| representation_view(x)),
                )
            },
        },
    }
}

/// An XML text the manifest logic can read through: malformed, or a
/// document that `manifest_nodes_complete` accepts.
pub open spec fn manifest_text_complete(xml: Seq<char>) -> bool {
    match parsed_xml(xml) {
        Err(_) => true,
        Ok(nodes) => manifest_nodes_complete(nodes),
    }
}

/// What parsing the manifest text `xml` under `base_url` gives.
pub open spec fn manifest_parse_matches(base_url: Seq<char>, xml: Seq<char>, r: Result<Manifest, ManifestError>) -> bool {
    match parsed_xml(xml) {
        Err(msg) => r matches Err(ManifestError::Xml(m)) && m@ == msg,
        Ok(nodes) => manifest_matches(base_url, nodes, r),
    }
}

/// Tells whether `manifest_nodes_complete` holds of the nodes.
pub fn nodes_complete(nodes: &Vec<XmlNode>) -> (complete: bool)
    ensures
        complete == manifest_nodes_complete(nodes_view(nodes@)),
{
    let mpd = match find_element(nodes, "MPD") {
        Some(m) => m,
        None => return false,
    };
    assert(nodes_view(nodes@)[mpd as int] == nodes@[mpd as int]@);
    if find_attribute(&nodes[mpd], "mediaPresentationDuration").is_none() {
        return true;
    }
    find_element(nodes, "SegmentTemplate").is_some() && get_representations(nodes).is_some()
}

impl Manifest {
    /// Reads a manifest from the nodes of its document.
    pub fn from_nodes(base_url: &str, nodes: &Vec<XmlNode>) -> (manifest: Result<Manifest, ManifestError>)
        requires
            manifest_nodes_complete(nodes_view(nodes@)),
        ensures
            manifest_matches(base_url@, nodes_view(nodes@), manifest),
    {
        let ghost v = nodes_view(nodes@);
        let mpd_at = match find_element(nodes, "MPD") {
            Some(m) => m,
            None => return Err(ManifestError::MissingDuration),
        };
        assert(v[mpd_at as int] == nodes@[mpd_at as int]@);
        let media_presentation_duration = match find_attribute(&nodes[mpd_at], "mediaPresentationDuration") {
            Some(d) => d.clone(),
            None => return Err(ManifestError::MissingDuration),
        };
        let mpd = Mpd { media_presentation_duration };
        let template_at = match find_element(nodes, "SegmentTemplate") {
            Some(t) => t,
            None => return Err(ManifestError::MissingDuration),
        };
        assert(v[template_at as int] == nodes@[template_at as int]@);
        let segment_template = get_segment_template(&nodes[template_at]);
        let representations = match get_representations(nodes) {
            Some(r) => r,
            None => return Err(ManifestError::MissingDuration),
        };
        Ok(Manifest { mpd, base_url: String::from_str(base_url), representations, segment_template })
    }

    /// Reads the structure of a manifest text: the XML, the `MPD`
    /// element's duration (kept as written, not read as a number), the
    /// segment template and the representations. The text must be malformed
    /// XML or a document that the manifest logic can read through.
    pub fn parse_document(base_url: &str, xml: &str) -> (manifest: Result<Manifest, ManifestError>)
        requires
            manifest_text_complete(xml@),
        ensures
            manifest_parse_matches(base_url@, xml@, manifest),
    {
        match parse_xml(xml) {
            Err(m) => Err(ManifestError::Xml(m)),
            Ok(nodes) => Manifest::from_nodes(base_url, &nodes),
        }
    }

    /// `parse_document` for any text: `None` where the document lacks what
    /// the manifest logic reads, and otherwise what `parse_document` gives.
    pub fn parse_document_checked(base_url: &str, xml: &str) -> (manifest: Option<Result<Manifest, ManifestError>>)
        ensures
            match manifest {
                None => !manifest_text_complete(xml@),
                Some(m) => manifest_text_complete(xml@) && manifest_parse_matches(base_url@, xml@, m),
            },
    {
        let complete = match parse_xml(xml) {
            Err(_) => true,
            Ok(nodes) => nodes_complete(&nodes),
        };
        if complete {
            Some(Manifest::parse_document(base_url, xml))
        } else {
            None
        }
    }

    /// The URL of a representation's initialization segment: the base URL,
    /// a `/`, and the initialization template with the representation's id
    /// in place of `$RepresentationID$`.
    pub fn init_path(&self, rep: &Representation) -> (path: String)
        ensures
            path@ == self.base_url@ + "/"@ + crate::text::replaced(
                self.segment_template.initialization@,
                "$RepresentationID$"@,
                rep.id@,
            ),
    {
        proof {
            reveal_strlit("$RepresentationID$");
        }
        let path = replace_all(self.segment_template.initialization.as_str(), "$RepresentationID$", rep.id.as_str());
        let mut url = String::from_str(self.base_url.as_str());
        url.append("/");
        url.append(path.as_str());
        url
    }

    /// The URL of a media segment: the base URL, a `/`, and the media
    /// template with the representation's id in place of
    /// `$RepresentationID$` and the segment number, in decimal, in place of
    /// `$Number$`.
    pub fn segment_path(&self, representation: &Representation, number: i32) -> (path: String)
        ensures
            path@ == self.base_url@ + "/"@ + crate::text::replaced(
                crate::text::replaced(self.segment_template.media@, "$RepresentationID$"@, representation.id@),
                "$Number$"@,
                crate::text::decimal(number as int),
            ),
    {
        proof {
            reveal_strlit("$RepresentationID$");
            reveal_strlit("$Number$");
        }
        let with_id = replace_all(self.segment_template.media.as_str(), "$RepresentationID$", representation.id.as_str());
        let number_text = i32_to_decimal(number);
        let path = replace_all(with_id.as_str(), "$Number$", number_text.as_str());
        let mut url = String::from_str(self.base_url.as_str());
        url.append("/");
        url.append(path.as_str());
        url
    }
}

} // verus!
