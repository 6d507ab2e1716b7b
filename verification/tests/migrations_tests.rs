use codex_git_bash::migrations::adopt_line_ending_checksum;
use codex_git_bash::migrations::current_and_line_ending_checksums;
use codex_git_bash::migrations::find_migration;
use codex_git_bash::migrations::first_repair_step;
use codex_git_bash::migrations::legacy_recency_migration_version;
use codex_git_bash::migrations::line_ending_checksum_variants;
use codex_git_bash::migrations::line_ending_compatible_migrations;
use codex_git_bash::migrations::line_ending_sql_variants;
use codex_git_bash::migrations::next_repair_step;
use codex_git_bash::migrations::recency_migration_version;
use codex_git_bash::migrations::runtime_migrator_settings;
use codex_git_bash::migrations::MigrationRecord;
use codex_git_bash::migrations::MigratorSettings;
use codex_git_bash::migrations::RepairStep;
use sqlx::migrate::Migration;
use sqlx::migrate::MigrationType;
use std::borrow::Cow;

fn checksum(sql: &str) -> Vec<u8> {
    Migration::new(1, Cow::Borrowed("d"), MigrationType::Simple, Cow::Owned(sql.to_string()), false)
        .checksum
        .to_vec()
}

fn record(version: i64, sql: &str) -> MigrationRecord {
    MigrationRecord {
        version,
        description: "create table".to_string(),
        migration_type: MigrationType::Simple,
        sql: sql.to_string(),
        checksum: checksum(sql),
        no_tx: false,
    }
}

#[test]
fn sql_variants_by_line_ending() {
    assert_eq!(line_ending_sql_variants("a\nb\n"), vec!["a\r\nb\r\n".to_string()]);
    assert_eq!(line_ending_sql_variants("a\r\nb\r\n"), vec!["a\nb\n".to_string()]);
    assert_eq!(
        line_ending_sql_variants("a\r\nb\n"),
        vec!["a\nb\n".to_string(), "a\r\nb\r\n".to_string()]
    );
    assert!(line_ending_sql_variants("select 1;").is_empty());
}

#[test]
fn checksum_variants_differ_from_own_checksum() {
    let m = record(1, "create table t (x int);\n");
    let variants = line_ending_checksum_variants(&m);
    assert_eq!(variants, vec![checksum("create table t (x int);\r\n")]);
    assert!(!variants.contains(&m.checksum));
    let all = current_and_line_ending_checksums(&m);
    assert_eq!(all, vec![m.checksum.clone(), checksum("create table t (x int);\r\n")]);
}

#[test]
fn crlf_checksum_recorded_by_another_checkout_is_adopted() {
    let mut m = record(7, "create table t (x int);\n");
    let crlf = checksum("create table t (x int);\r\n");
    adopt_line_ending_checksum(&mut m, Some(&crlf));
    assert_eq!(m.checksum, crlf);

    let mut other = record(7, "create table t (x int);\n");
    let unrelated = checksum("drop table t;\n");
    adopt_line_ending_checksum(&mut other, Some(&unrelated));
    assert_eq!(other.checksum, checksum("create table t (x int);\n"));
    adopt_line_ending_checksum(&mut other, None);
    assert_eq!(other.checksum, checksum("create table t (x int);\n"));
}

#[test]
fn migrations_adopt_checksums_by_version() {
    let mut migrations = vec![record(1, "a;\n"), record(2, "b;\r\n"), record(3, "c;\n")];
    let applied = vec![
        (1, checksum("a;\r\n")),
        (2, checksum("b;\n")),
        (3, checksum("zzz")),
        (2, checksum("b;\r\n")),
    ];
    line_ending_compatible_migrations(&mut migrations, &applied);
    assert_eq!(migrations[0].checksum, checksum("a;\r\n"));
    assert_eq!(migrations[1].checksum, checksum("b;\r\n"));
    assert_eq!(migrations[2].checksum, checksum("c;\n"));
}

#[test]
fn recency_repair_steps() {
    let migrations = vec![record(38, "x"), record(39, "y"), record(39, "z")];
    assert_eq!(find_migration(&migrations, recency_migration_version()), Some(1));
    assert_eq!(find_migration(&migrations, 40), None);
    assert_eq!(legacy_recency_migration_version(), 38);
    assert_eq!(first_repair_step(0), RepairStep::Done);
    assert_eq!(first_repair_step(2), RepairStep::Query(0));
    assert_eq!(next_repair_step(2, 0, false), RepairStep::Query(1));
    assert_eq!(next_repair_step(2, 1, false), RepairStep::Done);
    assert_eq!(next_repair_step(2, 0, true), RepairStep::Update(0));
}

#[test]
fn runtime_settings_ignore_newer_versions_and_keep_the_rest() {
    let base = MigratorSettings { ignore_missing: false, locking: true, no_tx: false };
    assert_eq!(
        runtime_migrator_settings(base),
        MigratorSettings { ignore_missing: true, locking: true, no_tx: false }
    );
    let base = MigratorSettings { ignore_missing: true, locking: false, no_tx: true };
    assert_eq!(runtime_migrator_settings(base), base);
}
