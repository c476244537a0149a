//! The served document: one fixed-shape metadata record per index, and its
//! exact JSON text.

use vstd::prelude::*;
use crate::dec::decimal;
use crate::dec::digit_char;
use crate::dec::is_digit;
use crate::dec::lemma_decimal_digits;
use crate::dec::push_decimal;
use crate::json::json_attribute_list;
use crate::json::json_creator;
use crate::json::json_creator_list;
use crate::json::json_file;
use crate::json::json_file_list;
use crate::json::json_metadata;
use crate::json::json_string;
use crate::json::lemma_escaped_append;
use crate::json::lemma_escaped_plain;
use crate::json::metadata_to_json;
use crate::json::plain_char;
use crate::model::Attribute;
use crate::model::Creator;
use crate::model::FileAttr;
use crate::model::Metadata;
use crate::model::Property;

verus! {

/// The shape of the document served for index `i`: the name embeds the
/// decimal index, every other field is fixed, and the optional fields
/// `animation_url`, `external_url` and `category` are absent.
pub open spec fn is_document_for(m: Metadata, i: nat) -> bool {
    &&& m.name@ == "Marinade Leader "@ + decimal(i)
    &&& m.symbol is Some
    &&& (m.symbol->0)@ == "ML"@
    &&& m.description@ == "Marinade Crew Leader"@
    &&& m.image@ == "https://aankor.space/leader.jpeg"@
    &&& m.animation_url is None
    &&& m.external_url is None
    &&& m.attributes@.len() == 0
    &&& m.properties.files@.len() == 1
    &&& m.properties.files@[0].uri@ == "https://aankor.space/leader.jpeg"@
    &&& m.properties.files@[0].file_type@ == "image/jpeg"@
    &&& m.properties.files@[0].cdn == false
    &&& m.properties.creators is Some
    &&& (m.properties.creators->0)@.len() == 2
    &&& (m.properties.creators->0)@[0].address@
        == "Ev4PX31e4ALCBUeAxRzdGc8tPygV9sTWyk9bJHSzxu4j"@
    &&& (m.properties.creators->0)@[0].share == 0
    &&& (m.properties.creators->0)@[1].address@
        == "LncCfW24e9cuekEaUJT3RQcgdASWzE3jhwyJ3QDa6Fn"@
    &&& (m.properties.creators->0)@[1].share == 100
    &&& m.properties.category is None
}

/// Builds the metadata record served for `index`. Every index yields a
/// record of the same shape; only the decimal index inside the name varies.
pub fn metadata_for(index: u64) -> (m: Metadata)
    ensures
        is_document_for(m, index as nat),
{
    let mut name = "Marinade Leader ".to_owned();
    push_decimal(&mut name, index);
    let mut files: Vec<FileAttr> = Vec::new();
    files.push(
        FileAttr {
            uri: "https://aankor.space/leader.jpeg".to_owned(),
            file_type: "image/jpeg".to_owned(),
            cdn: false,
        },
    );
    let mut creators: Vec<Creator> = Vec::new();
    creators.push(
        Creator { address: "Ev4PX31e4ALCBUeAxRzdGc8tPygV9sTWyk9bJHSzxu4j".to_owned(), share: 0 },
    );
    creators.push(
        Creator { address: "LncCfW24e9cuekEaUJT3RQcgdASWzE3jhwyJ3QDa6Fn".to_owned(), share: 100 },
    );
    let attributes: Vec<Attribute> = Vec::new();
    Metadata {
        name: name,
        symbol: Some("ML".to_owned()),
        description: "Marinade Crew Leader".to_owned(),
        image: "https://aankor.space/leader.jpeg".to_owned(),
        animation_url: None,
        external_url: None,
        attributes: attributes,
        properties: Property { files: files, creators: Some(creators), category: None },
    }
}

/// The JSON text of the document for index `i`: a fixed head, the decimal
/// index, a fixed tail.
pub open spec fn metadata_json(i: nat) -> Seq<char> {
    "{\"name\":\"Marinade Leader "@ + decimal(i)
        + "\",\"symbol\":\"ML\",\"description\":\"Marinade Crew Leader\",\"image\":\"https://aankor.space/leader.jpeg\",\"attributes\":[],\"properties\":{\"files\":[{\"uri\":\"https://aankor.space/leader.jpeg\",\"type\":\"image/jpeg\"}],\"creators\":[{\"address\":\"Ev4PX31e4ALCBUeAxRzdGc8tPygV9sTWyk9bJHSzxu4j\",\"share\":0},{\"address\":\"LncCfW24e9cuekEaUJT3RQcgdASWzE3jhwyJ3QDa6Fn\",\"share\":100}]}}"@
}

/// Builds the full JSON body that the metadata endpoint serves for `index`.
pub fn metadata_document(index: u64) -> (r: String)
    ensures
        r@ == metadata_json(index as nat),
{
    let m = metadata_for(index);
    let r = metadata_to_json(&m);
    proof {
        lemma_document_text(m, index as nat);
    }
    r
}

/// Law: every record of the served shape serializes to the fixed JSON text —
/// the head, the decimal index, the tail — for every index.
#[verifier::rlimit(100)]
pub proof fn lemma_document_text(m: Metadata, i: nat)
    requires
        is_document_for(m, i),
    ensures
        json_metadata(m) == metadata_json(i),
{
    reveal_strlit("Marinade Leader ");
    reveal_strlit("ML");
    reveal_strlit("Marinade Crew Leader");
    reveal_strlit("https://aankor.space/leader.jpeg");
    reveal_strlit("image/jpeg");
    reveal_strlit("Ev4PX31e4ALCBUeAxRzdGc8tPygV9sTWyk9bJHSzxu4j");
    reveal_strlit("LncCfW24e9cuekEaUJT3RQcgdASWzE3jhwyJ3QDa6Fn");
    reveal_strlit("{\"name\":");
    reveal_strlit(",\"symbol\":");
    reveal_strlit(",\"description\":");
    reveal_strlit(",\"image\":");
    reveal_strlit(",\"attributes\":[");
    reveal_strlit("]");
    reveal_strlit(",\"properties\":");
    reveal_strlit("}");
    reveal_strlit("{\"files\":[");
    reveal_strlit(",\"creators\":[");
    reveal_strlit("{\"uri\":");
    reveal_strlit(",\"type\":");
    reveal_strlit("{\"address\":");
    reveal_strlit(",\"share\":");
    reveal_strlit("{\"name\":\"Marinade Leader ");
    reveal_strlit(
        "\",\"symbol\":\"ML\",\"description\":\"Marinade Crew Leader\",\"image\":\"https://aankor.space/leader.jpeg\",\"attributes\":[],\"properties\":{\"files\":[{\"uri\":\"https://aankor.space/leader.jpeg\",\"type\":\"image/jpeg\"}],\"creators\":[{\"address\":\"Ev4PX31e4ALCBUeAxRzdGc8tPygV9sTWyk9bJHSzxu4j\",\"share\":0},{\"address\":\"LncCfW24e9cuekEaUJT3RQcgdASWzE3jhwyJ3QDa6Fn\",\"share\":100}]}}",
    );
    let q = seq!['"'];
    let d = decimal(i);

    // the name: its fixed prefix and the decimal digits are all plain
    lemma_decimal_digits(i);
    assert(forall|j: int| 0 <= j < d.len() ==> plain_char(#[trigger] d[j])) by {
        assert(forall|j: int| 0 <= j < d.len() ==> is_digit(#[trigger] d[j]));
    }
    lemma_escaped_plain(d);
    lemma_escaped_plain("Marinade Leader "@);
    lemma_escaped_append("Marinade Leader "@, d);
    assert(json_string(m.name@) == q + ("Marinade Leader "@ + d) + q);

    // the fixed string fields are plain and stay themselves
    lemma_escaped_plain("ML"@);
    lemma_escaped_plain("Marinade Crew Leader"@);
    lemma_escaped_plain("https://aankor.space/leader.jpeg"@);
    lemma_escaped_plain("image/jpeg"@);
    lemma_escaped_plain("Ev4PX31e4ALCBUeAxRzdGc8tPygV9sTWyk9bJHSzxu4j"@);
    lemma_escaped_plain("LncCfW24e9cuekEaUJT3RQcgdASWzE3jhwyJ3QDa6Fn"@);

    // the single file object
    let f0 = m.properties.files@[0];
    assert(json_file(f0) == "{\"uri\":"@ + (q + "https://aankor.space/leader.jpeg"@ + q)
        + ",\"type\":"@ + (q + "image/jpeg"@ + q) + Seq::<char>::empty() + "}"@);
    assert(json_file_list(m.properties.files@) == json_file(f0));

    // the two creator objects, with their decimal shares
    assert(decimal(0nat) =~= seq!['0']);
    assert(decimal(100nat) == decimal(10nat) + seq![digit_char(0nat)]);
    assert(decimal(10nat) == decimal(1nat) + seq![digit_char(0nat)]);
    assert(decimal(1nat) =~= seq!['1']);
    assert(decimal(100nat) =~= seq!['1', '0', '0']);
    let cs = m.properties.creators->0;
    let jc0 = json_creator(cs@[0]);
    let jc1 = json_creator(cs@[1]);
    assert(jc0 == "{\"address\":"@ + (q + "Ev4PX31e4ALCBUeAxRzdGc8tPygV9sTWyk9bJHSzxu4j"@ + q)
        + ",\"share\":"@ + seq!['0'] + "}"@);
    assert(jc1 == "{\"address\":"@ + (q + "LncCfW24e9cuekEaUJT3RQcgdASWzE3jhwyJ3QDa6Fn"@ + q)
        + ",\"share\":"@ + seq!['1', '0', '0'] + "}"@);
    assert(cs@.drop_last() =~= seq![cs@[0]]);
    assert(json_creator_list(seq![cs@[0]]) == jc0);
    assert(json_creator_list(cs@) == jc0 + seq![','] + jc1);

    // the empty attribute list
    assert(json_attribute_list(m.attributes@) == Seq::<char>::empty());

    // assemble: everything around the decimal digits is fixed text
    let head = "{\"name\":"@ + q + "Marinade Leader "@;
    let tail = q + ",\"symbol\":"@ + q + "ML"@ + q + ",\"description\":"@ + q
        + "Marinade Crew Leader"@ + q + ",\"image\":"@ + q + "https://aankor.space/leader.jpeg"@
        + q + ",\"attributes\":["@ + "]"@ + ",\"properties\":"@ + "{\"files\":["@ + "{\"uri\":"@
        + q + "https://aankor.space/leader.jpeg"@ + q + ",\"type\":"@ + q + "image/jpeg"@ + q
        + "}"@ + "]"@ + ",\"creators\":["@ + "{\"address\":"@ + q
        + "Ev4PX31e4ALCBUeAxRzdGc8tPygV9sTWyk9bJHSzxu4j"@ + q + ",\"share\":"@ + seq!['0'] + "}"@
        + seq![','] + "{\"address\":"@ + q + "LncCfW24e9cuekEaUJT3RQcgdASWzE3jhwyJ3QDa6Fn"@ + q
        + ",\"share\":"@ + seq!['1', '0', '0'] + "}"@ + "]"@ + "}"@ + "}"@;
    assert(json_metadata(m) =~= head + d + tail);
    assert(head =~= "{\"name\":\"Marinade Leader "@);
    assert(tail
        =~= "\",\"symbol\":\"ML\",\"description\":\"Marinade Crew Leader\",\"image\":\"https://aankor.space/leader.jpeg\",\"attributes\":[],\"properties\":{\"files\":[{\"uri\":\"https://aankor.space/leader.jpeg\",\"type\":\"image/jpeg\"}],\"creators\":[{\"address\":\"Ev4PX31e4ALCBUeAxRzdGc8tPygV9sTWyk9bJHSzxu4j\",\"share\":0},{\"address\":\"LncCfW24e9cuekEaUJT3RQcgdASWzE3jhwyJ3QDa6Fn\",\"share\":100}]}}"@);
}

} // verus!
