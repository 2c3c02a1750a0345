use options_cli::{alias_entries, canonicalize, AliasTable};

#[test]
fn every_alias_resolves_to_its_row() {
    for (alias, canon) in alias_entries() {
        assert_eq!(canonicalize(alias), canon);
    }
}

#[test]
fn alias_table_is_many_to_one() {
    assert_eq!(canonicalize("hack.compiler.sourcemapping"), "eval.disassembler_source_mapping");
    assert_eq!(canonicalize("eval.disassemblersourcemapping"), "eval.disassembler_source_mapping");
}

#[test]
fn alias_with_new_prefix() {
    assert_eq!(canonicalize("eval.reffinessinvariance"), "hhvm.reffiness_invariance");
    assert_eq!(
        canonicalize("hhvm.lang.disableunsetclassconst"),
        "hhvm.hack.lang.disable_unset_class_const"
    );
}

#[test]
fn unknown_key_is_unchanged() {
    assert_eq!(canonicalize("hhvm.some_unknown_option"), "hhvm.some_unknown_option");
    assert_eq!(canonicalize(""), "");
}

#[test]
fn canonical_key_is_unchanged() {
    assert_eq!(canonicalize("hhvm.reffiness_invariance"), "hhvm.reffiness_invariance");
    assert_eq!(
        canonicalize("eval.disassembler_source_mapping"),
        "eval.disassembler_source_mapping"
    );
}

#[test]
fn lookup_is_exact() {
    assert_eq!(canonicalize("HACK.COMPILER.SOURCEMAPPING"), "HACK.COMPILER.SOURCEMAPPING");
    assert_eq!(canonicalize("hack.compiler.sourcemapping "), "hack.compiler.sourcemapping ");
    assert_eq!(canonicalize("hack.compiler.sourcemappin"), "hack.compiler.sourcemappin");
}

#[test]
fn alias_table_has_every_row_once() {
    let rows = alias_entries();
    assert_eq!(rows.len(), 28);
    for i in 0..rows.len() {
        for j in i + 1..rows.len() {
            assert_ne!(rows[i].0, rows[j].0);
        }
    }
}

#[test]
fn one_alias_table_serves_many_lookups() {
    let table = AliasTable::new();
    assert_eq!(table.canonicalize("eval.hackarrdvarrs"), "hhvm.hack_arr_dv_arrs");
    assert_eq!(
        table.canonicalize("hack.lang.enablepocketuniverses"),
        "hhvm.hack.lang.enable_pocket_universes"
    );
    assert_eq!(table.canonicalize("hhvm.include_roots"), "hhvm.include_roots");
}
