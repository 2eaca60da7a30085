//! The capture date embedded in an image's Exif block: the earliest of the
//! date fields that hold a valid timestamp.

use crate::stamp::{earliest, is_earliest, lemma_order_total, precedes, Stamp};
use vstd::prelude::*;

verus! {

#[verifier::external_type_specification]
#[verifier::external_body]
pub struct ExExif(exif::Exif);

/// The date-bearing Exif fields, in the order they are consulted.
#[derive(Clone, Copy, Debug, PartialEq, Eq, Structural)]
pub enum DateTag {
    /// `DateTime`: when the file was last changed.
    Generic,
    /// `DateTimeOriginal`: when the picture was taken.
    Original,
    /// `DateTimeDigitized`: when the picture was stored digitally.
    Digitized,
}

pub open spec fn is_digit(b: u8) -> bool {
    48 <= b <= 57
}

pub open spec fn digit_value(b: u8) -> int {
    b as int - 48
}

/// The number written by the two digits at `i` and `i + 1`.
pub open spec fn two_digits(t: Seq<u8>, i: int) -> int {
    10 * digit_value(t[i]) + digit_value(t[i + 1])
}

/// `t` has the shape `YYYY:MM:DD HH:MM:SS` in its first nineteen bytes.
pub open spec fn exif_shape(t: Seq<u8>) -> bool {
    t.len() >= 19 && t[4] == 58 && t[7] == 58 && t[10] == 32 && t[13] == 58 && t[16] == 58
        && is_digit(t[0]) && is_digit(t[1]) && is_digit(t[2]) && is_digit(t[3]) && is_digit(t[5])
        && is_digit(t[6]) && is_digit(t[8]) && is_digit(t[9]) && is_digit(t[11]) && is_digit(t[12])
        && is_digit(t[14]) && is_digit(t[15]) && is_digit(t[17]) && is_digit(t[18])
}

/// The fields that an Exif timestamp text spells out, or `None` where it is
/// not of the shape `YYYY:MM:DD HH:MM:SS`. The ranges are not checked here.
pub open spec fn exif_text_stamp(t: Seq<u8>) -> Option<Stamp> {
    if exif_shape(t) {
        Some(
            Stamp {
                year: (100 * two_digits(t, 0) + two_digits(t, 2)) as i32,
                month: two_digits(t, 5) as u32,
                day: two_digits(t, 8) as u32,
                hour: two_digits(t, 11) as u32,
                minute: two_digits(t, 14) as u32,
                second: two_digits(t, 17) as u32,
            },
        )
    } else {
        None
    }
}

/// The valid moment that an Exif timestamp text gives, if any.
pub open spec fn field_date(t: Seq<u8>) -> Option<Stamp> {
    match exif_text_stamp(t) {
        Some(s) => if s.wf() {
            Some(s)
        } else {
            None
        },
        None => None,
    }
}

/// Whether exif's container reader finds an Exif block in these bytes.
pub uninterp spec fn exif_parses(data: Seq<u8>) -> bool;

/// The strings of the ASCII field with this tag number in the primary image
/// of the Exif block that these bytes hold, or `None` where the field is
/// absent or of another type.
pub uninterp spec fn primary_ascii(data: Seq<u8>, tag: int) -> Option<Seq<Seq<u8>>>;

/// The Exif tag number of a date field.
pub open spec fn tag_code(tag: DateTag) -> int {
    match tag {
        DateTag::Generic => 0x0132,
        DateTag::Original => 0x9003,
        DateTag::Digitized => 0x9004,
    }
}

/// An Exif block together with the bytes it was read from.
pub struct ExifBlock {
    block: exif::Exif,
    source: Ghost<Seq<u8>>,
}

impl ExifBlock {
    /// The bytes the block was read from.
    pub closed spec fn source(&self) -> Seq<u8> {
        self.source@
    }
}

/// Relies on exif::Reader::read_from_container, which parses the Exif block
/// of a JPEG, TIFF, PNG, HEIF or WebP image held in memory, or reports an
/// error; the outcome depends on the bytes alone.
#[verifier::external_body]
fn read_container(data: &Vec<u8>) -> (r: Option<ExifBlock>)
    ensures
        r is Some <==> exif_parses(data@),
        r matches Some(b) ==> b.source() == data@,
{
    let block = exif::Reader::new().read_from_container(&mut std::io::Cursor::new(data.as_slice())).ok()?;
    Some(ExifBlock { block, source: Ghost(data@) })
}

/// Relies on exif::Exif::get_field for the primary image: the strings of
/// the field where it is present and of ASCII type.
#[verifier::external_body]
fn ascii_field(block: &ExifBlock, tag: DateTag) -> (r: Option<Vec<Vec<u8>>>)
    ensures
        r is Some <==> primary_ascii(block.source(), tag_code(tag)) is Some,
        r matches Some(v) ==> primary_ascii(block.source(), tag_code(tag)) == Some(
            v@.map_values(|t: Vec<u8>| t@),
        ),
{
    let tag = match tag {
        DateTag::Generic => exif::Tag::DateTime,
        DateTag::Original => exif::Tag::DateTimeOriginal,
        DateTag::Digitized => exif::Tag::DateTimeDigitized,
    };
    match &block.block.get_field(tag, exif::In::PRIMARY)?.value {
        exif::Value::Ascii(strings) => Some(strings.clone()),
        _ => None,
    }
}

/// Relies on exif::DateTime::from_ascii, which accepts a text exactly when
/// its first nineteen bytes read `YYYY:MM:DD HH:MM:SS` with digits in place
/// of the letters, and returns those numbers unchecked.
#[verifier::external_body]
fn parse_exif_text(t: &[u8]) -> (r: Option<Stamp>)
    ensures
        r == exif_text_stamp(t@),
{
    exif::DateTime::from_ascii(t).ok().map(
        |d| Stamp {
            year: d.year as i32,
            month: d.month as u32,
            day: d.day as u32,
            hour: d.hour as u32,
            minute: d.minute as u32,
            second: d.second as u32,
        },
    )
}

/// The valid moments among Exif timestamp texts, in order.
pub open spec fn valid_dates(texts: Seq<Seq<u8>>) -> Seq<Stamp>
    decreases texts.len(),
{
    if texts.len() == 0 {
        Seq::empty()
    } else {
        let rest = valid_dates(texts.drop_last());
        match field_date(texts.last()) {
            Some(s) => rest.push(s),
            None => rest,
        }
    }
}

/// One more timestamp text holding a valid moment `d` makes the earliest
/// valid moment the lesser of `d` and the earlier earliest `m`, or `d` where
/// there was none: a further valid date never moves the result later.
pub proof fn lemma_added_date(texts: Seq<Seq<u8>>, t: Seq<u8>, d: Stamp, m: Stamp)
    requires
        field_date(t) == Some(d),
        valid_dates(texts).len() > 0 ==> is_earliest(valid_dates(texts), m),
    ensures
        is_earliest(
            valid_dates(texts.push(t)),
            if valid_dates(texts).len() == 0 || precedes(d, m) {
                d
            } else {
                m
            },
        ),
{
    let old_dates = valid_dates(texts);
    let new_dates = valid_dates(texts.push(t));
    assert(texts.push(t).drop_last() =~= texts);
    assert(new_dates == old_dates.push(d));
    let e = if old_dates.len() == 0 || precedes(d, m) {
        d
    } else {
        m
    };
    if old_dates.len() == 0 || precedes(d, m) {
        assert(new_dates[old_dates.len() as int] == d);
    } else {
        let k = choose|k: int| 0 <= k < old_dates.len() && old_dates[k] == m;
        assert(new_dates[k] == m);
    }
    assert forall|i: int| 0 <= i < new_dates.len() implies !precedes(#[trigger] new_dates[i], e) by {
        if i < old_dates.len() {
            assert(new_dates[i] == old_dates[i]);
            assert(!precedes(old_dates[i], m));
            lemma_order_total(old_dates[i], m);
            lemma_order_total(d, m);
        } else {
            lemma_order_total(d, m);
        }
    }
}

/// Parses each Exif timestamp text, skips the malformed and impossible
/// ones, and returns the earliest of the rest.
pub fn date_from_fields(texts: &Vec<Vec<u8>>) -> (r: Option<Stamp>)
    ensures
        r is None <==> valid_dates(texts@.map_values(|t: Vec<u8>| t@)).len() == 0,
        r matches Some(m) ==> is_earliest(valid_dates(texts@.map_values(|t: Vec<u8>| t@)), m),
        r matches Some(m) ==> m.wf(),
{
    let ghost views = texts@.map_values(|t: Vec<u8>| t@);
    let mut found: Vec<Stamp> = Vec::new();
    let mut i: usize = 0;
    while i < texts.len()
        invariant
            0 <= i <= texts@.len(),
            views == texts@.map_values(|t: Vec<u8>| t@),
            found@ == valid_dates(views.subrange(0, i as int)),
            forall|j: int| 0 <= j < found@.len() ==> (#[trigger] found@[j]).wf(),
        decreases texts@.len() - i,
    {
        proof {
            assert(views.subrange(0, i + 1).drop_last() =~= views.subrange(0, i as int));
            assert(views.subrange(0, i + 1).last() == texts@[i as int]@);
        }
        match parse_exif_text(texts[i].as_slice()) {
            Some(s) => {
                if s.is_valid() {
                    found.push(s);
                }
            },
            None => {},
        }
        i = i + 1;
    }
    assert(views.subrange(0, texts@.len() as int) =~= views);
    let r = earliest(&found);
    if let Some(m) = r {
        let ghost k = choose|k: int| 0 <= k < found@.len() && found@[k] == m;
        assert(found@[k].wf());
    }
    r
}

/// The first string of a field, where the field is present and not empty.
pub open spec fn first_string(field: Option<Seq<Seq<u8>>>) -> Option<Seq<u8>> {
    match field {
        Some(v) => if v.len() > 0 {
            Some(v[0])
        } else {
            None
        },
        None => None,
    }
}

/// `s` with the text of `o` added at its end, where there is one.
pub open spec fn push_text(s: Seq<Seq<u8>>, o: Option<Seq<u8>>) -> Seq<Seq<u8>> {
    match o {
        Some(t) => s.push(t),
        None => s,
    }
}

/// The timestamp texts of the Exif block in these bytes: the first string
/// of each present, non-empty ASCII field among `DateTime`,
/// `DateTimeOriginal` and `DateTimeDigitized` of the primary image, in that
/// order.
pub open spec fn date_texts(data: Seq<u8>) -> Seq<Seq<u8>> {
    push_text(
        push_text(
            push_text(Seq::empty(), first_string(primary_ascii(data, tag_code(DateTag::Generic)))),
            first_string(primary_ascii(data, tag_code(DateTag::Original))),
        ),
        first_string(primary_ascii(data, tag_code(DateTag::Digitized))),
    )
}

/// Adds the first string of a field to `texts`, where the field is present
/// and not empty.
fn push_first(texts: &mut Vec<Vec<u8>>, field: Option<Vec<Vec<u8>>>)
    ensures
        final(texts)@.map_values(|t: Vec<u8>| t@) == push_text(
            old(texts)@.map_values(|t: Vec<u8>| t@),
            first_string(
                match field {
                    Some(v) => Some(v@.map_values(|t: Vec<u8>| t@)),
                    None => None,
                },
            ),
        ),
{
    if let Some(v) = field {
        if v.len() > 0 {
            texts.push(v[0].clone());
            assert(final(texts)@.map_values(|t: Vec<u8>| t@) =~= old(texts)@.map_values(
                |t: Vec<u8>| t@,
            ).push(v@[0]@));
        }
    }
}

/// The capture moment embedded in an image file's bytes: the earliest valid
/// timestamp among its `DateTime`, `DateTimeOriginal` and `DateTimeDigitized`
/// fields; `None` where the file holds no readable Exif block or no such date.
pub fn metadata_date(data: Vec<u8>) -> (r: Option<Stamp>)
    ensures
        !exif_parses(data@) ==> r is None,
        exif_parses(data@) ==> (r is None <==> valid_dates(date_texts(data@)).len() == 0),
        r matches Some(m) ==> is_earliest(valid_dates(date_texts(data@)), m) && m.wf(),
{
    let block = match read_container(&data) {
        Some(b) => b,
        None => return None,
    };
    let mut texts: Vec<Vec<u8>> = Vec::new();
    assert(texts@.map_values(|t: Vec<u8>| t@) =~= Seq::<Seq<u8>>::empty());
    push_first(&mut texts, ascii_field(&block, DateTag::Generic));
    push_first(&mut texts, ascii_field(&block, DateTag::Original));
    push_first(&mut texts, ascii_field(&block, DateTag::Digitized));
    assert(texts@.map_values(|t: Vec<u8>| t@) == date_texts(data@));
    date_from_fields(&texts)
}

} // verus!
