//! Choices of the media processing pipeline that depend on plain values:
//! how an image file is decoded and turned upright, where its derivatives
//! go, what its capture time says, how the tagger's vocabulary is read, how
//! many threads the tagger gets, and the bounds of a face chip.
use vstd::prelude::*;

use crate::paths::{file_extension, path_extension};
use crate::media_utils::{utf8_len, utf8_width};
use crate::text::{
    char_vec, concat, concat3, equals_lit, lowercase, parse_signed, parse_signed_chars, replace_all,
    replace_lit, slice_string, split_class, split_where, string_of, to_lower, CharClass,
};

verus! {

/// Loads images for processing.
pub struct ImageProcessor;

/// How an image file is decoded.
#[derive(Debug, Clone, Copy, PartialEq, Eq, Structural)]
pub enum ImageLoader {
    /// With libheif (`heic`, `heif`).
    Heic,
    /// As a raster, then turned upright by its EXIF orientation (`jpg`,
    /// `jpeg`).
    RasterWithExif,
    /// As a raster as it is.
    Raster,
}

/// The decoder for a lowercase extension.
pub open spec fn loader_for_ext(ext: Seq<char>) -> ImageLoader {
    if ext == "heic"@ || ext == "heif"@ {
        ImageLoader::Heic
    } else if ext == "jpg"@ || ext == "jpeg"@ {
        ImageLoader::RasterWithExif
    } else {
        ImageLoader::Raster
    }
}

/// The decoder of a file by its extension in lowercase (empty when it has
/// none).
pub open spec fn loader_of(path: Seq<char>) -> ImageLoader {
    loader_for_ext(
        lowercase(
            match path_extension(path) {
                Some(e) => e,
                None => seq![],
            },
        ),
    )
}

impl ImageProcessor {
    /// How the image at `path` is decoded.
    pub fn loader_for(path: &str) -> (r: ImageLoader)
        ensures
            r == loader_of(path@),
    {
        let ext = match file_extension(path) {
            Some(e) => e,
            None => String::new(),
        };
        let low = to_lower(ext.as_str());
        let v = char_vec(low.as_str());
        if equals_lit(&v, "heic") || equals_lit(&v, "heif") {
            ImageLoader::Heic
        } else if equals_lit(&v, "jpg") || equals_lit(&v, "jpeg") {
            ImageLoader::RasterWithExif
        } else {
            ImageLoader::Raster
        }
    }
}

/// A tag of the tagger's vocabulary.
#[derive(Debug, Clone)]
pub struct TagInfo {
    pub name: String,
    /// 0 general, 4 character, 9 rating.
    pub category: i32,
}

/// The tag of a vocabulary record (id, name, category, ...): its name with
/// underscores as spaces, and its category, 0 when it is not a number.
/// Records with fewer than three fields give none.
pub open spec fn tag_of_record(fields: Seq<Seq<char>>) -> Option<(Seq<char>, int)> {
    if fields.len() >= 3 {
        Some(
            (
                replace_all(fields[1], "_"@, " "@),
                match parse_signed(fields[2], i32::MIN as int, i32::MAX as int) {
                    Some(c) => c,
                    None => 0,
                },
            ),
        )
    } else {
        None
    }
}

/// The records of a CSV document after its header row, each as its fields,
/// when the whole document reads as CSV (`csv::Reader` with its defaults:
/// a header row, commas, double quotes, every record as long as the
/// header, UTF-8 fields); nothing otherwise.
pub uninterp spec fn csv_records(bytes: Seq<u8>) -> Option<Seq<Seq<Seq<char>>>>;

/// `csv::Reader::from_reader` over the bytes, then `Reader::records`, each
/// record's fields as strings; nothing as soon as a record fails to read.
/// The result is named by `csv_records`; the CSV grammar is not restated.
#[verifier::external_body]
fn read_csv_records(bytes: &Vec<u8>) -> (r: Option<Vec<Vec<String>>>)
    ensures
        r.deep_view() == csv_records(bytes@),
{
    let mut rdr = csv::Reader::from_reader(bytes.as_slice());
    let mut out: Vec<Vec<String>> = Vec::new();
    for result in rdr.records() {
        match result {
            Ok(record) => out.push(record.iter().map(|f| f.to_string()).collect()),
            Err(_) => return None,
        }
    }
    Some(out)
}

/// The vocabulary of a tag list: the tag of each record that gives one, in
/// order.
pub open spec fn vocabulary_of(records: Seq<Seq<Seq<char>>>) -> Seq<(Seq<char>, int)>
    decreases records.len(),
{
    if records.len() == 0 {
        seq![]
    } else {
        let r = vocabulary_of(records.drop_last());
        match tag_of_record(records.last()) {
            Some(t) => r.push(t),
            None => r,
        }
    }
}

/// Tags seen as (name, category) pairs.
pub open spec fn tag_views(tags: Seq<TagInfo>) -> Seq<(Seq<char>, int)> {
    tags.map_values(|t: TagInfo| (t.name@, t.category as int))
}

impl TagInfo {
    /// The tagger's vocabulary from the bytes of its tag list
    /// (`selected_tags.csv`): nothing when the file does not read as CSV,
    /// else the tag of every record with at least three fields, in order.
    pub fn vocabulary(csv_bytes: &Vec<u8>) -> (r: Option<Vec<TagInfo>>)
        ensures
            r is Some <==> csv_records(csv_bytes@) is Some,
            r matches Some(v) ==> tag_views(v@) == vocabulary_of(csv_records(csv_bytes@).unwrap()),
    {
        let records = match read_csv_records(csv_bytes) {
            Some(rs) => rs,
            None => return None,
        };
        let ghost rv = records.deep_view();
        let mut tags: Vec<TagInfo> = Vec::new();
        let mut i: usize = 0;
        while i < records.len()
            invariant
                i <= records@.len(),
                rv == records.deep_view(),
                tag_views(tags@) == vocabulary_of(rv.take(i as int)),
            decreases records.len() - i,
        {
            assert(rv.take(i + 1).drop_last() =~= rv.take(i as int));
            assert(rv.take(i + 1).last() == records@[i as int].deep_view());
            let ghost before = tag_views(tags@);
            match TagInfo::from_record(&records[i]) {
                Some(t) => {
                    tags.push(t);
                    assert(tag_views(tags@) =~= before.push((tags@.last().name@, tags@.last().category as int)));
                },
                None => {},
            }
            i += 1;
        }
        assert(rv.take(rv.len() as int) =~= rv);
        Some(tags)
    }

    /// The tag of a vocabulary record.
    pub fn from_record(fields: &Vec<String>) -> (r: Option<TagInfo>)
        ensures
            r.is_some() == tag_of_record(fields.deep_view()).is_some(),
            r matches Some(t) ==> tag_of_record(fields.deep_view()) == Some((t.name@, t.category as int)),
    {
        if fields.len() < 3 {
            return None;
        }
        proof {
            reveal_strlit("_");
        }
        let name_chars = char_vec(fields[1].as_str());
        let name = string_of(&replace_lit(&name_chars, "_", " "));
        let cat_chars = char_vec(fields[2].as_str());
        let category: i32 = match crate::text::parse_signed_chars(&cat_chars, i32::MIN as i64, i32::MAX as i64) {
            Some(c) => c as i32,
            None => 0,
        };
        assert(fields.deep_view()[1] == fields@[1]@);
        assert(fields.deep_view()[2] == fields@[2]@);
        Some(TagInfo { name, category })
    }
}

/// The threads the tagger gets: one less than the available parallelism,
/// at least 1 and at most 8; 4 when the parallelism is unknown.
pub open spec fn tagger_thread_count(available: Option<usize>) -> usize {
    match available {
        Some(n) => if n <= 1 {
            1
        } else if n - 1 > 8 {
            8
        } else {
            (n - 1) as usize
        },
        None => 4,
    }
}

/// Computes `tagger_thread_count`.
pub fn tagger_threads(available: Option<usize>) -> (r: usize)
    ensures
        r == tagger_thread_count(available),
        1 <= r <= 8,
{
    match available {
        Some(n) => {
            let less = n.saturating_sub(1);
            let at_least = if less < 1 {
                1
            } else {
                less
            };
            if at_least > 8 {
                8
            } else {
                at_least
            }
        },
        None => 4,
    }
}

/// The pixel rectangle of a face chip within its image.
#[derive(Debug, Clone, Copy, PartialEq, Eq, Structural)]
pub struct FaceChipBounds {
    pub px: u32,
    pub py: u32,
    pub pw: u32,
    pub ph: u32,
}

/// How an image is turned upright for an EXIF orientation value.
#[derive(Debug, Clone, Copy, PartialEq, Eq, Structural)]
pub enum OrientationFix {
    /// Left as it is (orientation 1, or an unknown value).
    Keep,
    /// Mirrored horizontally (2).
    FlipHorizontal,
    /// Turned half a turn (3).
    Rotate180,
    /// Mirrored vertically (4).
    FlipVertical,
    /// Turned a quarter turn clockwise, then mirrored horizontally (5).
    Rotate90FlipHorizontal,
    /// Turned a quarter turn clockwise (6).
    Rotate90,
    /// Turned three quarters clockwise, then mirrored horizontally (7).
    Rotate270FlipHorizontal,
    /// Turned three quarters clockwise (8).
    Rotate270,
}

/// The fix for an orientation value.
pub open spec fn orientation_fix_of(tag: u32) -> OrientationFix {
    if tag == 2 {
        OrientationFix::FlipHorizontal
    } else if tag == 3 {
        OrientationFix::Rotate180
    } else if tag == 4 {
        OrientationFix::FlipVertical
    } else if tag == 5 {
        OrientationFix::Rotate90FlipHorizontal
    } else if tag == 6 {
        OrientationFix::Rotate90
    } else if tag == 7 {
        OrientationFix::Rotate270FlipHorizontal
    } else if tag == 8 {
        OrientationFix::Rotate270
    } else {
        OrientationFix::Keep
    }
}

/// The thumbnail and preview paths of an image within its shard.
pub open spec fn image_derivative_paths(asset_id: Seq<char>, shard: Seq<char>) -> (Seq<char>, Seq<char>) {
    (shard + seq!['/'] + asset_id + "_thumb.webp"@, shard + seq!['/'] + asset_id + "_preview.webp"@)
}

impl ImageProcessor {
    /// How an image with this EXIF orientation is turned upright.
    pub fn orientation_fix(tag: u32) -> (r: OrientationFix)
        ensures
            r == orientation_fix_of(tag),
    {
        match tag {
            2 => OrientationFix::FlipHorizontal,
            3 => OrientationFix::Rotate180,
            4 => OrientationFix::FlipVertical,
            5 => OrientationFix::Rotate90FlipHorizontal,
            6 => OrientationFix::Rotate90,
            7 => OrientationFix::Rotate270FlipHorizontal,
            8 => OrientationFix::Rotate270,
            _ => OrientationFix::Keep,
        }
    }

    /// The relative paths of the thumbnail and the preview of an image
    /// stored in the given shard.
    pub fn derivative_names(asset_id: &str, shard: &str) -> (r: (String, String))
        ensures
            (r.0@, r.1@) == image_derivative_paths(asset_id@, shard@),
    {
        let sep = vec!['/'];
        let slash = string_of(&sep);
        assert(sep@ =~= seq!['/']);
        let prefix = concat3(shard, slash.as_str(), asset_id);
        (concat(prefix.as_str(), "_thumb.webp"), concat(prefix.as_str(), "_preview.webp"))
    }
}

/// The shard directory of an asset: the first two bytes of its id, `misc`
/// when the id is shorter.
pub open spec fn shard_of(id: Seq<char>) -> Seq<char> {
    if utf8_len(id) < 2 {
        "misc"@
    } else if utf8_width(id[0]) == 2 {
        id.take(1)
    } else {
        id.take(2)
    }
}

/// Whether the first two bytes of an id end on a character boundary, as
/// cutting them out needs.
pub open spec fn shard_cut_ok(id: Seq<char>) -> bool {
    ||| utf8_len(id) < 2
    ||| utf8_width(id[0]) == 2
    ||| (id.len() >= 2 && utf8_width(id[0]) == 1 && utf8_width(id[1]) == 1)
}

/// The UTF-8 width of a character.
fn char_width(c: char) -> (w: u64)
    ensures
        w == utf8_width(c),
{
    let v = c as u32;
    if v < 0x80 {
        1
    } else if v < 0x800 {
        2
    } else if v < 0x10000 {
        3
    } else {
        4
    }
}

/// Computes `shard_of`.
pub fn shard_for(asset_id: &str) -> (r: String)
    requires
        shard_cut_ok(asset_id@),
    ensures
        r@ == shard_of(asset_id@),
{
    let v = char_vec(asset_id);
    let ghost id = v@;
    if v.len() == 0 {
        proof {
            assert(utf8_len(id) == 0);
        }
        return "misc".to_owned();
    }
    let w0 = char_width(v[0]);
    if v.len() == 1 {
        proof {
            assert(id.drop_last() =~= Seq::<char>::empty());
            assert(utf8_len(id.drop_last()) == 0);
            assert(id.last() == id[0]);
            assert(utf8_len(id) == utf8_width(id[0]));
        }
        if w0 < 2 {
            return "misc".to_owned();
        }
        return slice_string(&v, 0, 1);
    }
    proof {
        lemma_utf8_len_two(id);
    }
    if w0 == 2 {
        slice_string(&v, 0, 1)
    } else {
        slice_string(&v, 0, 2)
    }
}

/// An id of two or more characters takes at least two bytes.
proof fn lemma_utf8_len_two(id: Seq<char>)
    requires
        id.len() >= 2,
    ensures
        utf8_len(id) >= 2,
    decreases id.len(),
{
    let t = id.drop_last();
    if id.len() > 2 {
        lemma_utf8_len_two(t);
    } else {
        assert(t.drop_last() =~= Seq::<char>::empty());
        assert(utf8_len(t.drop_last()) == 0);
        assert(utf8_len(t) == utf8_len(t.drop_last()) + utf8_width(t.last()));
    }
    assert(utf8_len(id) == utf8_len(t) + utf8_width(id.last()));
}

/// The calendar fields of a capture time: split at `-`, `T`, spaces and
/// `:`, the first four pieces read as year, month, day and hour (each
/// absent when it is not a number); nothing when there are fewer than
/// four pieces.
pub open spec fn capture_fields(dt: Seq<char>) -> Option<(Option<int>, Option<int>, Option<int>, Option<int>)> {
    let p = split_where(dt, CharClass::DateSeparator);
    if p.len() >= 4 {
        Some(
            (
                parse_signed(p[0], i32::MIN as int, i32::MAX as int),
                parse_signed(p[1], i32::MIN as int, i32::MAX as int),
                parse_signed(p[2], i32::MIN as int, i32::MAX as int),
                parse_signed(p[3], i32::MIN as int, i32::MAX as int),
            ),
        )
    } else {
        None
    }
}

/// A piece read as an `i32`.
fn field_i32(piece: &Vec<char>) -> (r: Option<i32>)
    ensures
        r matches Some(v) ==> parse_signed(piece@, i32::MIN as int, i32::MAX as int) == Some(v as int),
        r is None ==> parse_signed(piece@, i32::MIN as int, i32::MAX as int) is None,
{
    match parse_signed_chars(piece, i32::MIN as i64, i32::MAX as i64) {
        Some(v) => Some(v as i32),
        None => None,
    }
}

/// An optional `i32` seen as an optional integer.
pub open spec fn opt_int(v: Option<i32>) -> Option<int> {
    match v {
        Some(x) => Some(x as int),
        None => None,
    }
}

/// Reads the year, month, day and hour of a capture time.
pub fn capture_date_parts(dt: &str) -> (r: Option<(Option<i32>, Option<i32>, Option<i32>, Option<i32>)>)
    ensures
        r is Some == capture_fields(dt@) is Some,
        r matches Some(f) ==> capture_fields(dt@) == Some(
            (opt_int(f.0), opt_int(f.1), opt_int(f.2), opt_int(f.3)),
        ),
{
    let v = char_vec(dt);
    let p = split_class(&v, &CharClass::DateSeparator);
    if p.len() < 4 {
        return None;
    }
    proof {
        crate::text::lemma_char_vec_deep_view(p@[0]);
        crate::text::lemma_char_vec_deep_view(p@[1]);
        crate::text::lemma_char_vec_deep_view(p@[2]);
        crate::text::lemma_char_vec_deep_view(p@[3]);
    }
    let year = field_i32(&p[0]);
    let month = field_i32(&p[1]);
    let day = field_i32(&p[2]);
    let hour = field_i32(&p[3]);
    Some((year, month, day, hour))
}

} // verus!
