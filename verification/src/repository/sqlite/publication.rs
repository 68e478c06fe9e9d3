//! The published configuration in SQLite: its counter and its rows.

use vstd::prelude::*;

use crate::repository::config::PublishedRow;
use crate::repository::sqlite;
use crate::repository::{RepoError, RepoErrorView};
use crate::text;

verus! {

/// Key of the publication counter among the store's settings.
pub const META_CONFIG_GENERATION: &'static str = "config_generation";

/// The counter that a setting holds; none stands at zero.
pub open spec fn counter_rule(raw: Option<Seq<char>>) -> Result<u64, RepoErrorView> {
    match raw {
        None => Ok(0),
        Some(v) => match text::read_u64(v) {
            Some(n) => Ok(n),
            None => Err(
                RepoErrorView::Serialization(
                    "store_meta "@ + META_CONFIG_GENERATION@ + " = "@ + v,
                ),
            ),
        },
    }
}

/// The counter that a setting holds.
pub fn read_counter(raw: &Option<String>) -> (r: Result<u64, RepoError>)
    ensures
        crate::repository::agrees(r, counter_rule(text::opt_view(*raw))),
{
    match raw {
        None => Ok(0),
        Some(v) => match text::parse_u64(v.as_str()) {
            Some(n) => Ok(n),
            None => {
                let mut m = text::owned("store_meta ");
                m.append(META_CONFIG_GENERATION);
                m.append(" = ");
                m.append(v.as_str());
                Err(RepoError::Serialization(m))
            },
        },
    }
}

/// The setting of a counter.
pub fn counter_text(counter: u64) -> (r: String)
    ensures
        r@ == text::dec(counter as nat),
        counter_rule(Some(r@)) == Ok::<u64, RepoErrorView>(counter),
{
    proof {
        text::law_a_number_is_read_back(counter);
    }
    text::u64_text(counter)
}

/// The columns of a published row beside its key.
#[derive(Debug, PartialEq, Eq)]
pub struct PublishedColumns {
    pub generation: i64,
    pub natural_version: i64,
    pub digest: String,
    pub body: Option<String>,
}

/// The row that columns hold.
pub open spec fn published_rule(c: PublishedColumns) -> PublishedRow {
    PublishedRow {
        generation: sqlite::spec_unsigned(c.generation) as u64,
        natural_version: sqlite::spec_unsigned(c.natural_version) as u64,
        digest: c.digest,
        body: c.body,
    }
}

/// The row that columns hold.
pub fn published_row(c: PublishedColumns) -> (r: PublishedRow)
    ensures
        r == published_rule(c),
{
    PublishedRow {
        generation: sqlite::unsigned(c.generation),
        natural_version: sqlite::unsigned(c.natural_version),
        digest: c.digest,
        body: c.body,
    }
}

/// The columns of a published row. What is written is read back.
pub fn published_columns(row: &PublishedRow) -> (r: Result<PublishedColumns, RepoError>)
    ensures
        match r {
            Ok(c) => {
                &&& row.generation <= sqlite::BIGINT_MAX
                &&& row.natural_version <= sqlite::BIGINT_MAX
                &&& published_rule(c) == *row
            },
            Err(e) => e@ == if row.generation > sqlite::BIGINT_MAX {
                sqlite::too_big("config generation"@, row.generation as nat)
            } else {
                sqlite::too_big("natural version"@, row.natural_version as nat)
            } && (row.generation > sqlite::BIGINT_MAX || row.natural_version > sqlite::BIGINT_MAX),
        },
{
    let generation: i64 = match sqlite::big(row.generation, "config generation") {
        Ok(n) => n,
        Err(e) => return Err(e),
    };
    let natural_version: i64 = match sqlite::big(row.natural_version, "natural version") {
        Ok(n) => n,
        Err(e) => return Err(e),
    };
    Ok(
        PublishedColumns {
            generation,
            natural_version,
            digest: row.digest.clone(),
            body: text::clone_opt(&row.body),
        },
    )
}

} // verus!
