use vstd::prelude::*;
use crate::common_types::Image;
use crate::numtext::{parse_i64, render_i64, spec_parse_int, spec_render_int};
use crate::numtext::lemma_decimal_round_trip;
use crate::textops::{join_comma_space, spec_join};

verus! {

/// Follower statistics of an artist.
pub struct Followers {
    pub href: Option<String>,
    pub total: i32,
}

/// The artist fields shared by the simple and the full shape.
pub struct ArtistSimple {
    pub href: String,
    pub id: String,
    pub name: String,
    pub uri: String,
    pub object_type: String,
}

/// A fully expanded artist object, as the artist endpoints return it.
pub struct ArtistFull {
    pub href: String,
    pub id: String,
    pub name: String,
    pub uri: String,
    pub object_type: String,
    pub followers: Followers,
    pub genres: Vec<String>,
    pub images: Vec<Image>,
    pub popularity: Option<i32>,
}

/// The output row of the artist crawl.
#[derive(Debug, PartialEq, Eq)]
pub struct ArtistCsv {
    pub id: String,
    pub name: String,
    pub genres: String,
    pub popularity: i32,
}

/// The popularity column: the reported value, `-1` when the provider
/// omitted it.
pub open spec fn spec_popularity(p: Option<i32>) -> int {
    match p {
        Option::Some(v) => v as int,
        Option::None => -1,
    }
}

impl ArtistCsv {
    /// Projects a full artist onto its output row; genres are joined
    /// with `", "`.
    pub fn from(artist_full: ArtistFull) -> (r: ArtistCsv)
        ensures
            r.id == artist_full.id,
            r.name == artist_full.name,
            r.genres@ == spec_join(artist_full.genres@, ", "@),
            r.popularity as int == spec_popularity(artist_full.popularity),
    {
        let genres = join_comma_space(&artist_full.genres);
        let popularity: i32 = match artist_full.popularity {
            Option::Some(v) => v,
            Option::None => -1,
        };
        ArtistCsv { id: artist_full.id, name: artist_full.name, genres, popularity }
    }
}

/// The row an artist CSV record reads back as, when it is one: four
/// fields, the last a strict decimal within the popularity range.
pub open spec fn spec_artist_row_of_record(rec: Seq<String>) -> Option<ArtistCsv> {
    if rec.len() != 4 {
        Option::None
    } else {
        match spec_parse_int(rec[3]@) {
            Option::Some(p) => if i32::MIN <= p <= i32::MAX {
                Option::Some(
                    ArtistCsv {
                        id: rec[0],
                        name: rec[1],
                        genres: rec[2],
                        popularity: p as i32,
                    },
                )
            } else {
                Option::None
            },
            Option::None => Option::None,
        }
    }
}

impl ArtistCsv {
    /// The row as a CSV record: id, name, genres, popularity.
    pub fn to_record(&self) -> (r: Vec<String>)
        ensures
            r@.len() == 4,
            r@[0] == self.id,
            r@[1] == self.name,
            r@[2] == self.genres,
            r@[3]@ == spec_render_int(self.popularity as int),
    {
        let mut r: Vec<String> = Vec::new();
        r.push(self.id.clone());
        r.push(self.name.clone());
        r.push(self.genres.clone());
        r.push(render_i64(self.popularity as i64));
        r
    }

    /// Reads a row back from a CSV record.
    pub fn from_record(rec: &Vec<String>) -> (r: Option<ArtistCsv>)
        ensures
            r == spec_artist_row_of_record(rec@),
    {
        if rec.len() != 4 {
            return Option::None;
        }
        match parse_i64(rec[3].as_str()) {
            Option::Some(p) => {
                if p >= -0x8000_0000 && p <= 0x7FFF_FFFF {
                    Option::Some(
                        ArtistCsv {
                            id: rec[0].clone(),
                            name: rec[1].clone(),
                            genres: rec[2].clone(),
                            popularity: p as i32,
                        },
                    )
                } else {
                    Option::None
                }
            },
            Option::None => Option::None,
        }
    }
}

/// CSV round trip: a record carrying exactly what a row writes — its
/// three strings and its popularity rendered in decimal — reads back as
/// that row; rows are written and read one record each, in order.
pub proof fn lemma_artist_record_round_trip(row: ArtistCsv, rec: Seq<String>)
    requires
        rec.len() == 4,
        rec[0] == row.id,
        rec[1] == row.name,
        rec[2] == row.genres,
        rec[3]@ == spec_render_int(row.popularity as int),
    ensures
        spec_artist_row_of_record(rec) == Option::Some(row),
{
    lemma_decimal_round_trip(row.popularity as int);
}

} // verus!
