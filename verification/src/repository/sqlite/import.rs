//! A ledger file that an earlier release left beside the database, imported
//! once.

use vstd::prelude::*;

use crate::repository::{RepoError, RepoErrorView};
use crate::text;

verus! {

/// Name of the ledger file.
pub const FILE_NAME: &'static str = "state.json";

/// Key of the digest of the imported file among the store's settings.
pub const META_LEGACY_DIGEST: &'static str = "legacy_state_json_sha256";

/// The tables that make the database hold a ledger.
pub const LEDGER_TABLES: [&'static str; 8] = [
    "functions",
    "revisions",
    "aliases",
    "invocations",
    "attempts",
    "environments",
    "idempotency",
    "artifact_owners",
];

/// What is to be done about the file.
#[derive(Debug, Clone, Copy, PartialEq, Eq, Structural)]
pub enum Import {
    /// Import it, then move it aside.
    Rows,
    /// It was imported and only the move was lost: finish it.
    MoveOnly,
}

/// Both the file and the database hold a ledger.
pub open spec fn two_ledgers(json: Seq<char>, db: Seq<char>) -> RepoErrorView {
    RepoErrorView::Refused(
        "both "@ + json + " and "@ + db
            + " hold a ledger. state.json is only imported into an empty database: move "@ + json
            + " aside if it is already imported, or move "@ + db
            + " aside to import the JSON ledger again"@,
    )
}

/// What is to be done about a file with the digest, where the last imported
/// one had the digest `imported`.
pub open spec fn import_rule(
    digest: Seq<char>,
    imported: Option<Seq<char>>,
    has_rows: bool,
    json: Seq<char>,
    db: Seq<char>,
) -> Result<Import, RepoErrorView> {
    if imported == Some(digest) {
        Ok(Import::MoveOnly)
    } else if has_rows {
        Err(two_ledgers(json, db))
    } else {
        Ok(Import::Rows)
    }
}

/// What is to be done about the file.
pub fn import_legacy(
    digest: &str,
    imported: &Option<String>,
    has_rows: bool,
    json: &str,
    db: &str,
) -> (r: Result<Import, RepoError>)
    ensures
        crate::repository::agrees(
            r,
            import_rule(digest@, text::opt_view(*imported), has_rows, json@, db@),
        ),
{
    let done: bool = match imported {
        Some(d) => text::same_text(d.as_str(), digest),
        None => false,
    };
    if done {
        return Ok(Import::MoveOnly);
    }
    if has_rows {
        let mut m = text::owned("both ");
        m.append(json);
        m.append(" and ");
        m.append(db);
        m.append(" hold a ledger. state.json is only imported into an empty database: move ");
        m.append(json);
        m.append(" aside if it is already imported, or move ");
        m.append(db);
        m.append(" aside to import the JSON ledger again");
        return Err(RepoError::Refused(m));
    }
    Ok(Import::Rows)
}

/// The file is never imported into a database that holds another ledger, and
/// never imported a second time.
pub proof fn law_a_ledger_is_imported_once(
    digest: Seq<char>,
    imported: Option<Seq<char>>,
    has_rows: bool,
    json: Seq<char>,
    db: Seq<char>,
)
    ensures
        import_rule(digest, imported, has_rows, json, db) == Ok::<Import, RepoErrorView>(Import::Rows)
            ==> !has_rows && imported != Some(digest),
        import_rule(digest, Some(digest), has_rows, json, db) == Ok::<Import, RepoErrorView>(
            Import::MoveOnly,
        ),
{
}

/// The name the file is moved to: the first one that is free.
pub open spec fn moved_name(stamp: Seq<char>, n: nat) -> Seq<char> {
    if n == 0 {
        FILE_NAME@ + ".imported-"@ + stamp
    } else {
        FILE_NAME@ + ".imported-"@ + stamp + "."@ + text::dec(n)
    }
}

/// The `n`th name the file may be moved to.
pub fn imported_name(stamp: &str, n: u64) -> (r: String)
    ensures
        r@ == moved_name(stamp@, n as nat),
{
    let mut m = text::owned(FILE_NAME);
    m.append(".imported-");
    m.append(stamp);
    if n > 0 {
        m.append(".");
        text::push_u64(&mut m, n);
    }
    m
}

/// The names are all different: looking for a free one ends.
pub proof fn law_every_name_is_another(stamp: Seq<char>, a: nat, b: nat)
    requires
        moved_name(stamp, a) == moved_name(stamp, b),
    ensures
        a == b,
{
    let base = FILE_NAME@ + ".imported-"@ + stamp;
    reveal_strlit(".");
    if a == 0 || b == 0 {
        text::lemma_dec_nonempty(a);
        text::lemma_dec_nonempty(b);
        if a != b {
            assert(moved_name(stamp, a).len() != moved_name(stamp, b).len());
        }
    } else {
        let head = base + "."@;
        assert(text::dec(a) =~= moved_name(stamp, a).skip(head.len() as int));
        assert(text::dec(b) =~= moved_name(stamp, b).skip(head.len() as int));
        text::lemma_dec_injective(a, b);
    }
}

/// A file that is no ledger.
pub open spec fn bad_file(path: Seq<char>, words: Seq<char>) -> RepoErrorView {
    RepoErrorView::Serialization(
        path + " is not a valid state file ("@ + words
            + "); it may have been truncated by an unclean shutdown. Move it aside to start with an empty ledger."@,
    )
}

/// A file that is no ledger: it is refused, never silently discarded.
pub fn invalid_file(path: &str, words: &str) -> (r: RepoError)
    ensures
        r@ == bad_file(path@, words@),
{
    let mut m = text::owned(path);
    m.append(" is not a valid state file (");
    m.append(words);
    m.append(
        "); it may have been truncated by an unclean shutdown. Move it aside to start with an empty ledger.",
    );
    RepoError::Serialization(m)
}

} // verus!
