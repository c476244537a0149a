//! Serialization of a metadata document into its JSON text.
//!
//! The wire format is fixed: object keys come in declaration order, optional
//! fields that are absent are left out altogether (never emitted as `null`),
//! and a false `cdn` flag is left out of its file object.

use vstd::prelude::*;
use crate::dec::decimal;
use crate::dec::digit_char;
use crate::model::Attribute;
use crate::model::Creator;
use crate::model::FileAttr;
use crate::model::Metadata;
use crate::model::Property;

verus! {

/// Relies on `String::push`: appends the given character to the end of the
/// string.
pub assume_specification[ String::push ](s: &mut String, c: char)
    ensures
        final(s)@ == old(s)@.push(c),
;

/// The hexadecimal digit character of a value below sixteen, lower case.
pub open spec fn hex_digit_char(d: nat) -> char {
    if d < 10 {
        digit_char(d)
    } else if d == 10 {
        'a'
    } else if d == 11 {
        'b'
    } else if d == 12 {
        'c'
    } else if d == 13 {
        'd'
    } else if d == 14 {
        'e'
    } else {
        'f'
    }
}

/// The escape of one character inside a JSON string literal: quote and
/// backslash take a leading backslash, a control character becomes a
/// `\u00XX` escape, and every other character stands for itself.
pub open spec fn escape_char(c: char) -> Seq<char> {
    if c == '"' {
        seq!['\\', '"']
    } else if c == '\\' {
        seq!['\\', '\\']
    } else if (c as int) < 32 {
        seq!['\\', 'u', '0', '0'] + seq![
            hex_digit_char((c as int / 16) as nat),
            hex_digit_char((c as int % 16) as nat),
        ]
    } else {
        seq![c]
    }
}

/// The body of a JSON string literal: each character escaped, in order.
pub open spec fn escaped(s: Seq<char>) -> Seq<char>
    decreases s.len(),
{
    if s.len() == 0 {
        Seq::empty()
    } else {
        escaped(s.drop_last()) + escape_char(s.last())
    }
}

/// A character that stands for itself inside a JSON string literal.
pub open spec fn plain_char(c: char) -> bool {
    c != '"' && c != '\\' && c as int >= 32
}

/// Escaping distributes over concatenation.
pub proof fn lemma_escaped_append(a: Seq<char>, b: Seq<char>)
    ensures
        escaped(a + b) == escaped(a) + escaped(b),
    decreases b.len(),
{
    if b.len() == 0 {
        assert(a + b =~= a);
        assert(escaped(a) + escaped(b) =~= escaped(a));
    } else {
        lemma_escaped_append(a, b.drop_last());
        assert((a + b).drop_last() =~= a + b.drop_last());
        assert((a + b).last() == b.last());
        assert(escaped(a) + escaped(b) =~= escaped(a) + escaped(b.drop_last()) + escape_char(
            b.last(),
        ));
    }
}

/// A text of plain characters is its own escaped body.
pub proof fn lemma_escaped_plain(s: Seq<char>)
    requires
        forall|i: int| 0 <= i < s.len() ==> plain_char(#[trigger] s[i]),
    ensures
        escaped(s) == s,
    decreases s.len(),
{
    if s.len() > 0 {
        lemma_escaped_plain(s.drop_last());
        assert(escape_char(s.last()) == seq![s.last()]);
        assert(s.drop_last() + seq![s.last()] =~= s);
    }
}

/// A JSON string literal: the escaped body between double quotes.
pub open spec fn json_string(s: Seq<char>) -> Seq<char> {
    seq!['"'] + escaped(s) + seq!['"']
}


/// The JSON object for one display attribute.
pub open spec fn json_attribute(a: Attribute) -> Seq<char> {
    "{\"trait_type\":"@ + json_string(a.trait_type@) + ",\"value\":"@ + json_string(a.value@)
        + "}"@
}

/// The JSON object for one creator entry.
pub open spec fn json_creator(c: Creator) -> Seq<char> {
    "{\"address\":"@ + json_string(c.address@) + ",\"share\":"@ + decimal(c.share as nat) + "}"@
}

/// The JSON object for one served file; a false `cdn` flag is left out.
pub open spec fn json_file(f: FileAttr) -> Seq<char> {
    "{\"uri\":"@ + json_string(f.uri@) + ",\"type\":"@ + json_string(f.file_type@) + (if f.cdn {
        ",\"cdn\":true"@
    } else {
        Seq::<char>::empty()
    }) + "}"@
}

/// The attribute objects joined with commas, in order.
pub open spec fn json_attribute_list(attrs: Seq<Attribute>) -> Seq<char>
    decreases attrs.len(),
{
    if attrs.len() == 0 {
        Seq::empty()
    } else if attrs.len() == 1 {
        json_attribute(attrs[0])
    } else {
        json_attribute_list(attrs.drop_last()) + seq![','] + json_attribute(attrs.last())
    }
}

/// The creator objects joined with commas, in order.
pub open spec fn json_creator_list(creators: Seq<Creator>) -> Seq<char>
    decreases creators.len(),
{
    if creators.len() == 0 {
        Seq::empty()
    } else if creators.len() == 1 {
        json_creator(creators[0])
    } else {
        json_creator_list(creators.drop_last()) + seq![','] + json_creator(creators.last())
    }
}

/// The file objects joined with commas, in order.
pub open spec fn json_file_list(files: Seq<FileAttr>) -> Seq<char>
    decreases files.len(),
{
    if files.len() == 0 {
        Seq::empty()
    } else if files.len() == 1 {
        json_file(files[0])
    } else {
        json_file_list(files.drop_last()) + seq![','] + json_file(files.last())
    }
}

/// The JSON object for a `properties` block; absent options are left out.
pub open spec fn json_property(p: Property) -> Seq<char> {
    "{\"files\":["@ + json_file_list(p.files@) + "]"@ + (match p.creators {
        Some(cs) => ",\"creators\":["@ + json_creator_list(cs@) + "]"@,
        None => Seq::<char>::empty(),
    }) + (match p.category {
        Some(cat) => ",\"category\":"@ + json_string(cat@),
        None => Seq::<char>::empty(),
    }) + "}"@
}

/// The JSON text of a whole metadata document; absent options are left out.
pub open spec fn json_metadata(m: Metadata) -> Seq<char> {
    "{\"name\":"@ + json_string(m.name@) + (match m.symbol {
        Some(sym) => ",\"symbol\":"@ + json_string(sym@),
        None => Seq::<char>::empty(),
    }) + ",\"description\":"@ + json_string(m.description@) + ",\"image\":"@ + json_string(
        m.image@,
    ) + (match m.animation_url {
        Some(u) => ",\"animation_url\":"@ + json_string(u@),
        None => Seq::<char>::empty(),
    }) + (match m.external_url {
        Some(u) => ",\"external_url\":"@ + json_string(u@),
        None => Seq::<char>::empty(),
    }) + ",\"attributes\":["@ + json_attribute_list(m.attributes@) + "]"@ + ",\"properties\":"@ + json_property(m.properties) + "}"@
}

/// The hexadecimal digit character of a value below sixteen.
fn hex_digit(v: u32) -> (r: char)
    requires
        v < 16,
    ensures
        r == hex_digit_char(v as nat),
{
    if v == 0 {
        '0'
    } else if v == 1 {
        '1'
    } else if v == 2 {
        '2'
    } else if v == 3 {
        '3'
    } else if v == 4 {
        '4'
    } else if v == 5 {
        '5'
    } else if v == 6 {
        '6'
    } else if v == 7 {
        '7'
    } else if v == 8 {
        '8'
    } else if v == 9 {
        '9'
    } else if v == 10 {
        'a'
    } else if v == 11 {
        'b'
    } else if v == 12 {
        'c'
    } else if v == 13 {
        'd'
    } else if v == 14 {
        'e'
    } else {
        'f'
    }
}

/// Appends the escaped body of a JSON string literal for `s`.
fn append_escaped(out: &mut String, s: &str)
    ensures
        final(out)@ == old(out)@ + escaped(s@),
{
    let len = s.unicode_len();
    let mut i: usize = 0;
    while i < len
        invariant
            i <= len,
            len == s@.len(),
            out@ == old(out)@ + escaped(s@.subrange(0, i as int)),
        decreases len - i,
    {
        let c = s.get_char(i);
        let ghost prefix = s@.subrange(0, i as int);
        let ghost cur = s@.subrange(0, i as int + 1);
        proof {
            assert(cur.drop_last() =~= prefix);
            assert(cur.last() == s@[i as int]);
        }
        if c == '"' {
            out.append("\\\"");
            proof {
                reveal_strlit("\\\"");
                assert(out@ =~= old(out)@ + escaped(cur));
            }
        } else if c == '\\' {
            out.append("\\\\");
            proof {
                reveal_strlit("\\\\");
                assert(out@ =~= old(out)@ + escaped(cur));
            }
        } else if (c as u32) < 32 {
            let v = c as u32;
            out.append("\\u00");
            out.push(hex_digit(v / 16));
            out.push(hex_digit(v % 16));
            proof {
                reveal_strlit("\\u00");
                assert(out@ =~= old(out)@ + escaped(cur));
            }
        } else {
            out.push(c);
            proof {
                assert(out@ =~= old(out)@ + escaped(cur));
            }
        }
        i = i + 1;
    }
    proof {
        assert(s@.subrange(0, len as int) =~= s@);
    }
}

/// Appends the JSON string literal for `s`.
fn append_json_string(out: &mut String, s: &str)
    ensures
        final(out)@ == old(out)@ + json_string(s@),
{
    out.push('"');
    append_escaped(out, s);
    out.push('"');
    proof {
        assert(out@ =~= old(out)@ + json_string(s@));
    }
}

/// Appends the JSON object for one display attribute.
fn append_attribute(out: &mut String, a: &Attribute)
    ensures
        final(out)@ == old(out)@ + json_attribute(*a),
{
    out.append("{\"trait_type\":");
    append_json_string(out, a.trait_type.as_str());
    out.append(",\"value\":");
    append_json_string(out, a.value.as_str());
    out.append("}");
    proof {
        assert(out@ =~= old(out)@ + json_attribute(*a));
    }
}

/// Appends the JSON object for one creator entry.
fn append_creator(out: &mut String, c: &Creator)
    ensures
        final(out)@ == old(out)@ + json_creator(*c),
{
    out.append("{\"address\":");
    append_json_string(out, c.address.as_str());
    out.append(",\"share\":");
    crate::dec::push_decimal(out, c.share as u64);
    out.append("}");
    proof {
        assert(out@ =~= old(out)@ + json_creator(*c));
    }
}

/// Appends the JSON object for one served file.
fn append_file(out: &mut String, f: &FileAttr)
    ensures
        final(out)@ == old(out)@ + json_file(*f),
{
    out.append("{\"uri\":");
    append_json_string(out, f.uri.as_str());
    out.append(",\"type\":");
    append_json_string(out, f.file_type.as_str());
    if f.cdn {
        out.append(",\"cdn\":true");
    }
    out.append("}");
    proof {
        assert(out@ =~= old(out)@ + json_file(*f));
    }
}

/// Appends the comma-joined JSON objects of the display attributes.
fn append_attributes(out: &mut String, attrs: &Vec<Attribute>)
    ensures
        final(out)@ == old(out)@ + json_attribute_list(attrs@),
{
    let mut i: usize = 0;
    while i < attrs.len()
        invariant
            i <= attrs@.len(),
            out@ == old(out)@ + json_attribute_list(attrs@.subrange(0, i as int)),
        decreases attrs@.len() - i,
    {
        let ghost prefix = attrs@.subrange(0, i as int);
        let ghost cur = attrs@.subrange(0, i as int + 1);
        proof {
            assert(cur.drop_last() =~= prefix);
            assert(cur.last() == attrs@[i as int]);
        }
        if i > 0 {
            out.append(",");
            proof {
                reveal_strlit(",");
            }
        }
        append_attribute(out, &attrs[i]);
        proof {
            assert(out@ =~= old(out)@ + json_attribute_list(cur));
        }
        i = i + 1;
    }
    proof {
        assert(attrs@.subrange(0, attrs@.len() as int) =~= attrs@);
    }
}

/// Appends the comma-joined JSON objects of the creator entries.
fn append_creators(out: &mut String, creators: &Vec<Creator>)
    ensures
        final(out)@ == old(out)@ + json_creator_list(creators@),
{
    let mut i: usize = 0;
    while i < creators.len()
        invariant
            i <= creators@.len(),
            out@ == old(out)@ + json_creator_list(creators@.subrange(0, i as int)),
        decreases creators@.len() - i,
    {
        let ghost prefix = creators@.subrange(0, i as int);
        let ghost cur = creators@.subrange(0, i as int + 1);
        proof {
            assert(cur.drop_last() =~= prefix);
            assert(cur.last() == creators@[i as int]);
        }
        if i > 0 {
            out.append(",");
            proof {
                reveal_strlit(",");
            }
        }
        append_creator(out, &creators[i]);
        proof {
            assert(out@ =~= old(out)@ + json_creator_list(cur));
        }
        i = i + 1;
    }
    proof {
        assert(creators@.subrange(0, creators@.len() as int) =~= creators@);
    }
}

/// Appends the comma-joined JSON objects of the served files.
fn append_files(out: &mut String, files: &Vec<FileAttr>)
    ensures
        final(out)@ == old(out)@ + json_file_list(files@),
{
    let mut i: usize = 0;
    while i < files.len()
        invariant
            i <= files@.len(),
            out@ == old(out)@ + json_file_list(files@.subrange(0, i as int)),
        decreases files@.len() - i,
    {
        let ghost prefix = files@.subrange(0, i as int);
        let ghost cur = files@.subrange(0, i as int + 1);
        proof {
            assert(cur.drop_last() =~= prefix);
            assert(cur.last() == files@[i as int]);
        }
        if i > 0 {
            out.append(",");
            proof {
                reveal_strlit(",");
            }
        }
        append_file(out, &files[i]);
        proof {
            assert(out@ =~= old(out)@ + json_file_list(cur));
        }
        i = i + 1;
    }
    proof {
        assert(files@.subrange(0, files@.len() as int) =~= files@);
    }
}

/// Appends the JSON object for a `properties` block.
fn append_property(out: &mut String, p: &Property)
    ensures
        final(out)@ == old(out)@ + json_property(*p),
{
    out.append("{\"files\":[");
    append_files(out, &p.files);
    out.append("]");
    match &p.creators {
        Some(cs) => {
            out.append(",\"creators\":[");
            append_creators(out, cs);
            out.append("]");
        },
        None => {},
    }
    match &p.category {
        Some(cat) => {
            out.append(",\"category\":");
            append_json_string(out, cat.as_str());
        },
        None => {},
    }
    out.append("}");
    proof {
        assert(out@ =~= old(out)@ + json_property(*p));
    }
}

/// Serializes a whole metadata document into its JSON text.
pub fn metadata_to_json(m: &Metadata) -> (r: String)
    ensures
        r@ == json_metadata(*m),
{
    let mut out = String::new();
    out.append("{\"name\":");
    append_json_string(&mut out, m.name.as_str());
    match &m.symbol {
        Some(sym) => {
            out.append(",\"symbol\":");
            append_json_string(&mut out, sym.as_str());
        },
        None => {},
    }
    out.append(",\"description\":");
    append_json_string(&mut out, m.description.as_str());
    out.append(",\"image\":");
    append_json_string(&mut out, m.image.as_str());
    match &m.animation_url {
        Some(u) => {
            out.append(",\"animation_url\":");
            append_json_string(&mut out, u.as_str());
        },
        None => {},
    }
    match &m.external_url {
        Some(u) => {
            out.append(",\"external_url\":");
            append_json_string(&mut out, u.as_str());
        },
        None => {},
    }
    out.append(",\"attributes\":[");
    append_attributes(&mut out, &m.attributes);
    out.append("]");
    out.append(",\"properties\":");
    append_property(&mut out, &m.properties);
    out.append("}");
    proof {
        assert(out@ =~= json_metadata(*m));
    }
    out
}

} // verus!
