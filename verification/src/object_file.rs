//! Executables and debug files, read by the `object` crate.
use object::{Object, ObjectSection, ObjectSegment, ObjectSymbol};
use vstd::prelude::*;

verus! {

/// The symbols of an object file in the order of its table, each with its name if that is UTF-8 and
/// its address; or the message why it is no object file.
pub uninterp spec fn symbol_table(data: Seq<u8>) -> Result<Seq<(Option<Seq<char>>, u64)>, Seq<char>>;

/// The segments of an object file in their order, each with its name if it has one in UTF-8 and its
/// address; nothing if it is no object file.
pub uninterp spec fn segment_table(data: Seq<u8>) -> Option<Seq<(Option<Seq<char>>, u64)>>;

/// The contents of the section of that name, decompressed; nothing if the file is no object file, has
/// no such section, or its contents cannot be read.
pub uninterp spec fn section_contents(data: Seq<u8>, name: Seq<char>) -> Option<Seq<u8>>;

/// Names and addresses, the names as sequences of characters.
pub open spec fn table_view(t: Seq<(Option<String>, u64)>) -> Seq<(Option<Seq<char>>, u64)> {
    t.map_values(
        |p: (Option<String>, u64)|
            (
                match p.0 {
                    Some(n) => Some(n@),
                    None => None,
                },
                p.1,
            ),
    )
}

/// `object::File::parse` and the `name` and `address` of each of its `symbols`.
#[verifier::external_body]
pub(crate) fn read_symbols(data: &[u8]) -> (r: Result<Vec<(Option<String>, u64)>, String>)
    ensures
        match r {
            Ok(t) => symbol_table(data@) == Ok::<_, Seq<char>>(table_view(t@)),
            Err(m) => symbol_table(data@) == Err::<Seq<(Option<Seq<char>>, u64)>, _>(m@),
        },
{
    let file = object::File::parse(data).map_err(|e| e.to_string())?;
    Ok(file.symbols().map(|s| (s.name().ok().map(String::from), s.address())).collect())
}

/// `object::File::parse` and the `name` and `address` of each of its `segments`.
#[verifier::external_body]
pub(crate) fn read_segments(data: &[u8]) -> (r: Option<Vec<(Option<String>, u64)>>)
    ensures
        match r {
            Some(t) => segment_table(data@) == Some(table_view(t@)),
            None => segment_table(data@) is None,
        },
{
    let file = object::File::parse(data).ok()?;
    Some(file.segments().map(|s| (s.name().ok().flatten().map(String::from), s.address())).collect())
}

/// `object::File::parse`, its `section_by_name`, and that section's `uncompressed_data`.
#[verifier::external_body]
pub(crate) fn read_section(data: &[u8], name: &str) -> (r: Option<Vec<u8>>)
    ensures
        match r {
            Some(b) => section_contents(data@, name@) == Some(b@),
            None => section_contents(data@, name@) is None,
        },
{
    let file = object::File::parse(data).ok()?;
    Some(file.section_by_name(name)?.uncompressed_data().ok()?.into_owned())
}

} // verus!
