//! Names in the wire format of the domain name system, as the directory's
//! indexer reads them.

use vstd::prelude::*;
use vstd::string::*;
use vstd::utf8::{decode_utf8, valid_utf8};

verus! {

/// Why a name could not be read.
#[derive(Debug, Clone, Copy, PartialEq, Eq, Structural)]
pub enum DnsWireError {
    /// A label runs past the end of the bytes.
    LabelOutOfBounds,
    /// The labels together are no UTF-8 text.
    NotUtf8,
}

/// Whether every label from position `from` on lies within the bytes. A
/// label is a length byte followed by that many bytes; a length of 0, or
/// the end of the bytes, ends the name.
pub open spec fn labels_fit(wire: Seq<u8>, from: int) -> bool
    decreases wire.len() - from,
{
    if from < 0 || from >= wire.len() || wire[from] == 0 {
        true
    } else {
        from + wire[from] + 1 <= wire.len() && labels_fit(wire, from + wire[from] + 1)
    }
}

/// The labels from position `from` on, each followed by a dot. A label
/// that does not lie within the bytes ends the name like a length of 0.
pub open spec fn dotted(wire: Seq<u8>, from: int) -> Seq<u8>
    decreases wire.len() - from,
{
    if from < 0 || from >= wire.len() || wire[from] == 0 || from + wire[from] + 1 > wire.len() {
        Seq::empty()
    } else {
        wire.subrange(from + 1, from + wire[from] + 1).push(46u8) + dotted(
            wire,
            from + wire[from] + 1,
        )
    }
}

/// A text without the dot at its end, if it ends with one.
pub open spec fn without_trailing_dot(text: Seq<char>) -> Seq<char> {
    if text.len() > 0 && text.last() == '.' {
        text.drop_last()
    } else {
        text
    }
}

/// Calls `String::from_utf8` of std: the text that the bytes encode, if
/// they are UTF-8, and nothing if they are not.
#[verifier::external_body]
fn string_from_utf8(bytes: Vec<u8>) -> (res: Option<String>)
    ensures
        match res {
            Some(text) => valid_utf8(bytes@) && text@ == decode_utf8(bytes@),
            None => !valid_utf8(bytes@),
        },
{
    String::from_utf8(bytes).ok()
}

/// Tells whether every label lies within the bytes.
pub fn is_dnswire(wire: &Vec<u8>) -> (res: bool)
    ensures
        res == labels_fit(wire@, 0),
{
    let mut i: usize = 0;
    while i < wire.len()
        invariant
            i <= wire.len(),
            labels_fit(wire@, 0) == labels_fit(wire@, i as int),
        decreases wire.len() - i,
    {
        let len = wire[i] as usize;
        if len == 0 {
            return true;
        }
        if len + 1 > wire.len() - i {
            return false;
        }
        i = i + len + 1;
    }
    true
}

/// The dotted bytes of a name in wire format.
pub fn dnswire_labels(wire: &Vec<u8>) -> (res: Vec<u8>)
    requires
        labels_fit(wire@, 0),
    ensures
        res@ == dotted(wire@, 0),
{
    let mut flat: Vec<u8> = Vec::new();
    let mut i: usize = 0;
    assert(flat@ + dotted(wire@, 0) =~= dotted(wire@, 0));
    while i < wire.len()
        invariant
            i <= wire.len(),
            labels_fit(wire@, i as int),
            flat@ + dotted(wire@, i as int) == dotted(wire@, 0),
        decreases wire.len() - i,
    {
        let len = wire[i] as usize;
        if len == 0 {
            assert(flat@ + Seq::<u8>::empty() =~= flat@);
            return flat;
        }
        let end = i + len + 1;
        let ghost before = flat@;
        let mut j: usize = i + 1;
        while j < end
            invariant
                i + 1 <= j <= end <= wire.len(),
                flat@ == before + wire@.subrange(i + 1, j as int),
            decreases end - j,
        {
            flat.push(wire[j]);
            assert(flat@ =~= before + wire@.subrange(i + 1, j + 1));
            j += 1;
        }
        flat.push(46u8);
        assert(flat@ + dotted(wire@, end as int) =~= before + dotted(wire@, i as int));
        i = end;
    }
    assert(flat@ + Seq::<u8>::empty() =~= flat@);
    flat
}

/// The text of the dotted labels, without the dot at the end: what reading
/// a name ends with, given the text that the labels decode to.
pub fn trimmed_name(text: Option<String>) -> (res: Result<String, DnsWireError>)
    ensures
        match text {
            Some(t) => res matches Ok(name) && name@ == without_trailing_dot(t@),
            None => res == Err::<String, DnsWireError>(DnsWireError::NotUtf8),
        },
{
    match text {
        None => Err(DnsWireError::NotUtf8),
        Some(t) => {
            let n = t.as_str().unicode_len();
            if n > 0 && t.as_str().get_char(n - 1) == '.' {
                let name = t.as_str().substring_char(0, n - 1).to_owned();
                assert(name@ =~= t@.drop_last());
                Ok(name)
            } else {
                Ok(t)
            }
        },
    }
}

/// What reading a name in wire format gives: the labels joined by dots.
/// A name with a label that runs past the end of the bytes is refused, and
/// so is one whose labels are no UTF-8 text.
pub open spec fn dnswire_name(wire: Seq<u8>) -> Result<Seq<char>, DnsWireError> {
    if !labels_fit(wire, 0) {
        Err(DnsWireError::LabelOutOfBounds)
    } else if !valid_utf8(dotted(wire, 0)) {
        Err(DnsWireError::NotUtf8)
    } else {
        Ok(without_trailing_dot(decode_utf8(dotted(wire, 0))))
    }
}

/// See [`dnswire_name`].
pub fn dnswire_decode(wire_format_bytes: Vec<u8>) -> (res: Result<String, DnsWireError>)
    ensures
        match res {
            Ok(name) => dnswire_name(wire_format_bytes@) == Ok::<Seq<char>, DnsWireError>(name@),
            Err(e) => dnswire_name(wire_format_bytes@) == Err::<Seq<char>, DnsWireError>(e),
        },
{
    if !is_dnswire(&wire_format_bytes) {
        return Err(DnsWireError::LabelOutOfBounds);
    }
    let flat = dnswire_labels(&wire_format_bytes);
    trimmed_name(string_from_utf8(flat))
}

} // verus!
