//! Tolerating migration checksums that differ only by line endings (LF against CRLF),
//! and repairing the version number of the legacy recency migration.
use vstd::prelude::*;

use sqlx::migrate::Migration;
use sqlx::migrate::MigrationType;
use std::borrow::Cow;

use crate::text::{chars_of, chars_equal, string_from_chars};

verus! {

#[verifier::external_type_specification]
#[verifier::external_body]
pub struct ExMigrationType(MigrationType);

/// One embedded migration.
pub struct MigrationRecord {
    pub version: i64,
    pub description: String,
    pub migration_type: MigrationType,
    pub sql: String,
    pub checksum: Vec<u8>,
    pub no_tx: bool,
}

/// `s` with every `\r\n` replaced by `\n`.
pub open spec fn spec_lf(s: Seq<char>) -> Seq<char>
    decreases s.len(),
{
    if s.len() == 0 {
        Seq::empty()
    } else if s.len() >= 2 && s[0] == '\r' && s[1] == '\n' {
        seq!['\n'] + spec_lf(s.skip(2))
    } else {
        seq![s[0]] + spec_lf(s.skip(1))
    }
}

/// `s` with every `\n` replaced by `\r\n`.
pub open spec fn spec_crlf(s: Seq<char>) -> Seq<char>
    decreases s.len(),
{
    if s.len() == 0 {
        Seq::empty()
    } else if s[0] == '\n' {
        seq!['\r', '\n'] + spec_crlf(s.skip(1))
    } else {
        seq![s[0]] + spec_crlf(s.skip(1))
    }
}

/// The LF spelling and the CRLF spelling of `sql`, each kept only if it differs from `sql`.
pub open spec fn spec_sql_variants(sql: Seq<char>) -> Seq<Seq<char>> {
    let lf = spec_lf(sql);
    let crlf = spec_crlf(lf);
    let first = if lf != sql {
        seq![lf]
    } else {
        Seq::empty()
    };
    if crlf != sql {
        first.push(crlf)
    } else {
        first
    }
}

/// Name for the checksum that `sqlx::migrate::Migration::new` computes for a migration's SQL.
pub uninterp spec fn sql_checksum(sql: Seq<char>) -> Seq<u8>;

/// The checksums of the line-ending spellings of a migration that differ from its own.
pub open spec fn spec_checksum_variants(sql: Seq<char>, checksum: Seq<u8>) -> Seq<Seq<u8>> {
    checksums_of(spec_sql_variants(sql)).filter(differs_from(checksum))
}

/// The checksum of each SQL text.
pub open spec fn checksums_of(vs: Seq<Seq<char>>) -> Seq<Seq<u8>> {
    vs.map_values(|v: Seq<char>| sql_checksum(v))
}

/// Holds of the checksums other than `checksum`.
pub open spec fn differs_from(checksum: Seq<u8>) -> spec_fn(Seq<u8>) -> bool {
    |c: Seq<u8>| c != checksum
}

fn lf_chars(s: &[char]) -> (r: Vec<char>)
    ensures
        r@ == spec_lf(s@),
{
    let mut out: Vec<char> = Vec::new();
    let mut i: usize = 0;
    assert(s@.skip(0) =~= s@);
    while i < s.len()
        invariant
            i <= s.len(),
            spec_lf(s@) == out@ + spec_lf(s@.skip(i as int)),
        decreases s.len() - i,
    {
        let ghost rest = s@.skip(i as int);
        if s[i] == '\r' && i + 1 < s.len() && s[i + 1] == '\n' {
            out.push('\n');
            proof {
                assert(rest.skip(2) =~= s@.skip(i + 2));
                assert(out@ + spec_lf(s@.skip(i + 2)) =~= out@.drop_last() + (seq!['\n'] + spec_lf(
                    rest.skip(2),
                )));
            }
            i = i + 2;
        } else {
            out.push(s[i]);
            proof {
                assert(rest.skip(1) =~= s@.skip(i + 1));
                assert(out@ + spec_lf(s@.skip(i + 1)) =~= out@.drop_last() + (seq![s@[i as int]]
                    + spec_lf(rest.skip(1))));
            }
            i = i + 1;
        }
    }
    assert(s@.skip(i as int) =~= Seq::<char>::empty());
    assert(out@ + Seq::<char>::empty() =~= out@);
    out
}

fn crlf_chars(s: &[char]) -> (r: Vec<char>)
    ensures
        r@ == spec_crlf(s@),
{
    let mut out: Vec<char> = Vec::new();
    let mut i: usize = 0;
    assert(s@.skip(0) =~= s@);
    while i < s.len()
        invariant
            i <= s.len(),
            spec_crlf(s@) == out@ + spec_crlf(s@.skip(i as int)),
        decreases s.len() - i,
    {
        let ghost rest = s@.skip(i as int);
        let ghost before = out@;
        if s[i] == '\n' {
            out.push('\r');
            out.push('\n');
            proof {
                assert(rest.skip(1) =~= s@.skip(i + 1));
                assert(out@ + spec_crlf(s@.skip(i + 1)) =~= before + (seq!['\r', '\n'] + spec_crlf(
                    rest.skip(1),
                )));
            }
        } else {
            out.push(s[i]);
            proof {
                assert(rest.skip(1) =~= s@.skip(i + 1));
                assert(out@ + spec_crlf(s@.skip(i + 1)) =~= before + (seq![s@[i as int]] + spec_crlf(
                    rest.skip(1),
                )));
            }
        }
        i = i + 1;
    }
    assert(s@.skip(i as int) =~= Seq::<char>::empty());
    assert(out@ + Seq::<char>::empty() =~= out@);
    out
}

/// The LF and CRLF spellings of `sql` that differ from it.
pub fn line_ending_sql_variants(sql: &str) -> (r: Vec<String>)
    ensures
        r.deep_view() == spec_sql_variants(sql@),
{
    let s = chars_of(sql);
    let lf = lf_chars(s.as_slice());
    let crlf = crlf_chars(lf.as_slice());
    let mut out: Vec<String> = Vec::new();
    if !chars_equal(lf.as_slice(), s.as_slice()) {
        out.push(string_from_chars(lf.as_slice()));
    }
    let ghost first = out.deep_view();
    if !chars_equal(crlf.as_slice(), s.as_slice()) {
        out.push(string_from_chars(crlf.as_slice()));
        assert(out.deep_view() =~= first.push(crlf@));
    }
    assert(out.deep_view() =~= spec_sql_variants(sql@));
    out
}

/// `sqlx::migrate::Migration::new`: the checksum it computes for a migration with the
/// given SQL. Its source computes the checksum from the SQL alone (SHA-384 of its bytes);
/// only that the result is determined by the SQL is stated here.
#[verifier::external_body]
fn migration_checksum(migration: &MigrationRecord, sql: &str) -> (r: Vec<u8>)
    ensures
        r@ == sql_checksum(sql@),
{
    Migration::new(
        migration.version,
        Cow::Owned(migration.description.clone()),
        migration.migration_type,
        Cow::Owned(sql.to_string()),
        migration.no_tx,
    ).checksum.to_vec()
}

/// The contents of each byte list.
pub open spec fn byte_lists(v: Seq<Vec<u8>>) -> Seq<Seq<u8>> {
    v.map_values(|x: Vec<u8>| x@)
}

fn bytes_equal(a: &[u8], b: &[u8]) -> (r: bool)
    ensures
        r == (a@ == b@),
{
    if a.len() != b.len() {
        return false;
    }
    let mut i: usize = 0;
    while i < a.len()
        invariant
            i <= a.len(),
            a.len() == b.len(),
            forall|j: int| 0 <= j < i ==> a@[j] == b@[j],
        decreases a.len() - i,
    {
        if a[i] != b[i] {
            return false;
        }
        i = i + 1;
    }
    assert(a@ =~= b@);
    true
}

/// The checksums of the line-ending spellings of `migration` that differ from its own
/// checksum.
pub fn line_ending_checksum_variants(migration: &MigrationRecord) -> (r: Vec<Vec<u8>>)
    ensures
        byte_lists(r@) == spec_checksum_variants(migration.sql@, migration.checksum@),
{
    let variants = line_ending_sql_variants(migration.sql.as_str());
    let ghost vs = variants.deep_view();
    let ghost mapped = checksums_of(vs);
    let mut out: Vec<Vec<u8>> = Vec::new();
    let mut i: usize = 0;
    while i < variants.len()
        invariant
            i <= variants.len(),
            vs == variants.deep_view(),
            mapped == checksums_of(vs),
            byte_lists(out@) == mapped.take(i as int).filter(differs_from(migration.checksum@)),
        decreases variants.len() - i,
    {
        let c = migration_checksum(migration, variants[i].as_str());
        proof {
            assert(mapped.take(i + 1).drop_last() =~= mapped.take(i as int));
            assert(mapped.take(i + 1).last() == c@);
            mapped.take(i as int).lemma_filter_push(c@, differs_from(migration.checksum@));
            assert(mapped.take(i as int).push(c@) =~= mapped.take(i + 1));
        }
        if !bytes_equal(c.as_slice(), migration.checksum.as_slice()) {
            let ghost before = byte_lists(out@);
            out.push(c);
            assert(byte_lists(out@) =~= before.push(c@));
        }
        i = i + 1;
    }
    assert(mapped.take(variants.len() as int) =~= mapped);
    out
}

/// The migration's own checksum followed by the checksums of its line-ending variants.
pub fn current_and_line_ending_checksums(migration: &MigrationRecord) -> (r: Vec<Vec<u8>>)
    ensures
        byte_lists(r@) == seq![migration.checksum@] + spec_checksum_variants(
            migration.sql@,
            migration.checksum@,
        ),
{
    let mut checksums: Vec<Vec<u8>> = Vec::new();
    checksums.push(migration.checksum.clone());
    let mut variants = line_ending_checksum_variants(migration);
    let ghost vs = byte_lists(variants@);
    let ghost head = byte_lists(checksums@);
    checksums.append(&mut variants);
    assert(head =~= seq![migration.checksum@]);
    assert(byte_lists(checksums@) =~= head + vs);
    checksums
}

/// The checksum a migration keeps once the database's record is known: the recorded
/// checksum when it belongs to a line-ending variant of the migration, its own otherwise.
pub open spec fn spec_compatible_checksum(
    sql: Seq<char>,
    checksum: Seq<u8>,
    applied: Option<Seq<u8>>,
) -> Seq<u8> {
    match applied {
        Some(a) => if a != checksum && spec_checksum_variants(sql, checksum).contains(a) {
            a
        } else {
            checksum
        },
        None => checksum,
    }
}

fn contains_bytes(list: &Vec<Vec<u8>>, x: &[u8]) -> (r: bool)
    ensures
        r == byte_lists(list@).contains(x@),
{
    let mut i: usize = 0;
    while i < list.len()
        invariant
            i <= list.len(),
            forall|j: int| 0 <= j < i ==> byte_lists(list@)[j] != x@,
        decreases list.len() - i,
    {
        if bytes_equal(list[i].as_slice(), x) {
            assert(byte_lists(list@)[i as int] == x@);
            return true;
        }
        i = i + 1;
    }
    false
}

/// Takes over the recorded checksum of a migration when it is the checksum of one of
/// the migration's line-ending variants.
pub fn adopt_line_ending_checksum(migration: &mut MigrationRecord, applied_checksum: Option<&Vec<u8>>)
    ensures
        final(migration).checksum@ == spec_compatible_checksum(
            old(migration).sql@,
            old(migration).checksum@,
            match applied_checksum {
                Some(a) => Some(a@),
                None => None,
            },
        ),
        final(migration).version == old(migration).version,
        final(migration).sql@ == old(migration).sql@,
        final(migration).description@ == old(migration).description@,
        final(migration).migration_type == old(migration).migration_type,
        final(migration).no_tx == old(migration).no_tx,
{
    let applied = match applied_checksum {
        Some(a) => a,
        None => return,
    };
    if bytes_equal(migration.checksum.as_slice(), applied.as_slice()) {
        return;
    }
    let variants = line_ending_checksum_variants(migration);
    if contains_bytes(&variants, applied.as_slice()) {
        migration.checksum = applied.clone();
    }
}

/// The checksum that the database records for `version`: the last record of that version,
/// as collecting the records into a map keeps it.
pub open spec fn spec_applied_checksum(applied: Seq<(i64, Vec<u8>)>, version: i64) -> Option<Seq<u8>>
    decreases applied.len(),
{
    if applied.len() == 0 {
        None
    } else if applied.last().0 == version {
        Some(applied.last().1@)
    } else {
        spec_applied_checksum(applied.drop_last(), version)
    }
}

fn applied_checksum(applied: &Vec<(i64, Vec<u8>)>, version: i64) -> (r: Option<&Vec<u8>>)
    ensures
        match r {
            Some(c) => spec_applied_checksum(applied@, version) == Some(c@),
            None => spec_applied_checksum(applied@, version) is None,
        },
{
    let mut i = applied.len();
    assert(applied@.take(i as int) =~= applied@);
    while i > 0
        invariant
            i <= applied.len(),
            spec_applied_checksum(applied@.take(i as int), version) == spec_applied_checksum(
                applied@,
                version,
            ),
        decreases i,
    {
        proof {
            assert(applied@.take(i as int).drop_last() =~= applied@.take(i - 1));
        }
        if applied[i - 1].0 == version {
            return Some(&applied[i - 1].1);
        }
        i = i - 1;
    }
    None
}

/// Lets each migration take over the checksum recorded for its version when the two
/// differ only by line endings.
pub fn line_ending_compatible_migrations(
    migrations: &mut Vec<MigrationRecord>,
    applied: &Vec<(i64, Vec<u8>)>,
)
    ensures
        final(migrations).len() == old(migrations).len(),
        forall|i: int|
            0 <= i < final(migrations).len() ==> {
                &&& #[trigger] final(migrations)@[i].version == old(migrations)@[i].version
                &&& final(migrations)@[i].sql@ == old(migrations)@[i].sql@
                &&& final(migrations)@[i].description@ == old(migrations)@[i].description@
                &&& final(migrations)@[i].migration_type == old(migrations)@[i].migration_type
                &&& final(migrations)@[i].no_tx == old(migrations)@[i].no_tx
                &&& final(migrations)@[i].checksum@ == spec_compatible_checksum(
                    old(migrations)@[i].sql@,
                    old(migrations)@[i].checksum@,
                    spec_applied_checksum(applied@, old(migrations)@[i].version),
                )
            },
{
    let ghost orig = migrations@;
    let n = migrations.len();
    let mut i: usize = 0;
    while i < n
        invariant
            i <= n,
            migrations.len() == n,
            orig.len() == n,
            forall|j: int|
                0 <= j < i ==> {
                    &&& #[trigger] migrations@[j].version == orig[j].version
                    &&& migrations@[j].sql@ == orig[j].sql@
                    &&& migrations@[j].description@ == orig[j].description@
                    &&& migrations@[j].migration_type == orig[j].migration_type
                    &&& migrations@[j].no_tx == orig[j].no_tx
                    &&& migrations@[j].checksum@ == spec_compatible_checksum(
                        orig[j].sql@,
                        orig[j].checksum@,
                        spec_applied_checksum(applied@, orig[j].version),
                    )
                },
            forall|j: int| i <= j < n ==> #[trigger] migrations@[j] == orig[j],
        decreases n - i,
    {
        let ghost before = migrations@;
        let mut m = migrations.remove(i);
        let ghost taken = m;
        let recorded = applied_checksum(applied, m.version);
        adopt_line_ending_checksum(&mut m, recorded);
        proof {
            assert(taken == orig[i as int]);
            assert(m.migration_type == orig[i as int].migration_type);
            assert(m.description@ == orig[i as int].description@);
        }
        migrations.insert(i, m);
        proof {
            assert(migrations@ =~= before.update(i as int, m));
            assert(before[i as int] == orig[i as int]);
            assert forall|j: int| 0 <= j <= i implies {
                &&& #[trigger] migrations@[j].version == orig[j].version
                &&& migrations@[j].sql@ == orig[j].sql@
                &&& migrations@[j].description@ == orig[j].description@
                &&& migrations@[j].migration_type == orig[j].migration_type
                &&& migrations@[j].no_tx == orig[j].no_tx
            } by {
                if j < i {
                    assert(migrations@[j] == before[j]);
                    assert(before[j].version == orig[j].version);
                }
            }
        }
        i = i + 1;
    }
}

/// Index of the first migration of the given version.
pub fn find_migration(migrations: &Vec<MigrationRecord>, version: i64) -> (r: Option<usize>)
    ensures
        match r {
            Some(i) => i < migrations.len() && migrations@[i as int].version == version && forall|
                j: int,
            |
                0 <= j < i ==> #[trigger] migrations@[j].version != version,
            None => forall|j: int|
                0 <= j < migrations.len() ==> #[trigger] migrations@[j].version != version,
        },
{
    let mut i: usize = 0;
    while i < migrations.len()
        invariant
            i <= migrations.len(),
            forall|j: int| 0 <= j < i ==> #[trigger] migrations@[j].version != version,
        decreases migrations.len() - i,
    {
        if migrations[i].version == version {
            return Some(i);
        }
        i = i + 1;
    }
    None
}

/// The settings of a migrator besides its migrations.
#[derive(Debug, Clone, Copy, PartialEq, Eq, Structural)]
pub struct MigratorSettings {
    pub ignore_missing: bool,
    pub locking: bool,
    pub no_tx: bool,
}

/// The settings of the migrator that an older binary uses at run time: applied
/// versions newer than the embedded set are ignored (known versions are still checked
/// by checksum), so it can open a database that a newer binary has migrated; locking
/// and the use of transactions are kept.
pub fn runtime_migrator_settings(base: MigratorSettings) -> (r: MigratorSettings)
    ensures
        r == (MigratorSettings { ignore_missing: true, locking: base.locking, no_tx: base.no_tx }),
{
    MigratorSettings { ignore_missing: true, locking: base.locking, no_tx: base.no_tx }
}

/// The version that the recency migration has.
pub fn recency_migration_version() -> (r: i64)
    ensures
        r == 39,
{
    39
}

/// The version under which older binaries recorded the recency migration.
pub fn legacy_recency_migration_version() -> (r: i64)
    ensures
        r == 38,
{
    38
}

/// What to do next while repairing the legacy recency migration.
#[derive(Debug, Clone, Copy, PartialEq, Eq, Structural)]
pub enum RepairStep {
    /// Ask whether the legacy record with candidate checksum number `i` needs repair.
    Query(usize),
    /// Rewrite the legacy record with candidate checksum number `i`.
    Update(usize),
    /// Nothing more to do.
    Done,
}

/// The step after asking about candidate `i` of `count`: a record that needs repair is
/// updated and the repair ends; otherwise the next candidate is asked about, and the
/// repair ends after the last one.
pub fn next_repair_step(count: usize, i: usize, needs_repair: bool) -> (r: RepairStep)
    requires
        i < count,
    ensures
        needs_repair ==> r == RepairStep::Update(i),
        !needs_repair && i + 1 < count ==> r == RepairStep::Query((i + 1) as usize),
        !needs_repair && i + 1 >= count ==> r == RepairStep::Done,
{
    if needs_repair {
        RepairStep::Update(i)
    } else if i + 1 < count {
        RepairStep::Query(i + 1)
    } else {
        RepairStep::Done
    }
}

/// The first step of the repair: nothing to do when there is no candidate checksum.
pub fn first_repair_step(count: usize) -> (r: RepairStep)
    ensures
        count > 0 ==> r == RepairStep::Query(0),
        count == 0 ==> r == RepairStep::Done,
{
    if count > 0 {
        RepairStep::Query(0)
    } else {
        RepairStep::Done
    }
}


// ---------------------------------------------------------------------------
// Laws
// ---------------------------------------------------------------------------

/// In the CRLF spelling every `\n` follows a `\r`.
pub proof fn lemma_crlf_newlines_follow_cr(s: Seq<char>)
    ensures
        forall|i: int|
            0 <= i < spec_crlf(s).len() && #[trigger] spec_crlf(s)[i] == '\n' ==> i > 0 && spec_crlf(
                s,
            )[i - 1] == '\r',
    decreases s.len(),
{
    if s.len() > 0 {
        lemma_crlf_newlines_follow_cr(s.skip(1));
        let rest = spec_crlf(s.skip(1));
        let head = if s[0] == '\n' {
            seq!['\r', '\n']
        } else {
            seq![s[0]]
        };
        assert(spec_crlf(s) == head + rest);
        assert forall|i: int|
            0 <= i < spec_crlf(s).len() && #[trigger] spec_crlf(s)[i] == '\n' implies i > 0
            && spec_crlf(s)[i - 1] == '\r' by {
            if i >= head.len() {
                assert(spec_crlf(s)[i] == rest[i - head.len()]);
                if i - head.len() > 0 {
                    assert(spec_crlf(s)[i - 1] == rest[i - 1 - head.len()]);
                } else {
                    // the first character of `rest` cannot be `\n`
                    assert(rest[0] == '\n');
                    assert(false);
                }
            }
        }
    }
}

/// SQL with LF line endings survives a trip to CRLF and back.
pub proof fn lemma_lf_crlf_round_trip(s: Seq<char>)
    requires
        forall|i: int| 0 <= i < s.len() ==> s[i] != '\r',
    ensures
        spec_lf(spec_crlf(s)) == s,
    decreases s.len(),
{
    if s.len() > 0 {
        lemma_lf_crlf_round_trip(s.skip(1));
        let rest = spec_crlf(s.skip(1));
        if s[0] == '\n' {
            let t = seq!['\r', '\n'] + rest;
            assert(t.skip(2) =~= rest);
            assert(spec_lf(t) == seq!['\n'] + spec_lf(rest));
        } else {
            let t = seq![s[0]] + rest;
            assert(t.skip(1) =~= rest);
            assert(spec_lf(t) == seq![s[0]] + spec_lf(rest));
        }
        assert(seq![s[0]] + s.skip(1) =~= s);
    }
}

/// A migration whose recorded checksum is that of its LF spelling or of its CRLF spelling
/// (and differs from its own) takes over the recorded checksum.
pub proof fn lemma_line_ending_checksum_adopted(sql: Seq<char>, checksum: Seq<u8>, variant: Seq<char>)
    requires
        variant == spec_lf(sql) || variant == spec_crlf(spec_lf(sql)),
        variant != sql,
        sql_checksum(variant) != checksum,
    ensures
        spec_compatible_checksum(sql, checksum, Some(sql_checksum(variant))) == sql_checksum(
            variant,
        ),
{
    let vs = spec_sql_variants(sql);
    let pred = differs_from(checksum);
    let mapped = checksums_of(vs);
    let k = choose|k: int| 0 <= k < vs.len() && vs[k] == variant;
    if variant == spec_lf(sql) {
        assert(vs[0] == variant);
    } else {
        assert(vs[vs.len() - 1] == variant);
    }
    assert(mapped[k] == sql_checksum(variant));
    mapped.lemma_filter_contains(pred, k);
}

/// A migration never takes over a recorded checksum unless it is its own or that of one of
/// its line-ending spellings.
pub proof fn lemma_only_line_ending_checksums_adopted(
    sql: Seq<char>,
    checksum: Seq<u8>,
    applied: Seq<u8>,
)
    ensures
        spec_compatible_checksum(sql, checksum, Some(applied)) == checksum || exists|v: Seq<char>|
            #[trigger] spec_sql_variants(sql).contains(v) && sql_checksum(v) == applied,
{
    let pred = differs_from(checksum);
    let mapped = checksums_of(spec_sql_variants(sql));
    if applied != checksum && mapped.filter(pred).contains(applied) {
        mapped.lemma_filter_contains_rev(pred, applied);
        let k = choose|k: int| 0 <= k < mapped.len() && mapped[k] == applied;
        let v = spec_sql_variants(sql)[k];
        assert(mapped[k] == sql_checksum(v));
        assert(spec_sql_variants(sql).contains(v));
        assert(spec_sql_variants(sql).contains(v) && sql_checksum(v) == applied);
    } else {
        assert(spec_compatible_checksum(sql, checksum, Some(applied)) == checksum);
    }
}

} // verus!
