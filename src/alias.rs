//! The alias table: every known non-canonical spelling of a configuration key,
//! with the canonical key it stands for, and the lookup that resolves a key.

use vstd::prelude::*;
use crate::table::{lookup, keys_unique, absent, lemma_lookup_row, lemma_lookup_absent};

verus! {

/// The alias table, as `(alias, canonical key)` rows.
pub open spec fn alias_rows() -> Seq<(Seq<char>, Seq<char>)> {
    seq![
        ("hack.compiler.sourcemapping"@, "eval.disassembler_source_mapping"@),
        ("eval.disassemblersourcemapping"@, "eval.disassembler_source_mapping"@),
        ("hack.compiler.constantfolding"@, "hack.compiler.constant_folding"@),
        ("hack.compiler.optimizenullcheck"@, "hack.compiler.optimize_null_checks"@),
        ("eval.createinoutwrapperfunctions"@, "hhvm.create_in_out_wrapper_functions"@),
        ("eval.hackarrcompatnotices"@, "hhvm.hack_arr_compat_notices"@),
        ("eval.hackarrdvarrs"@, "hhvm.hack_arr_dv_arrs"@),
        ("eval.jitenablerenamefunction"@, "hhvm.jit_enable_rename_function"@),
        ("eval.logexterncompilerperf"@, "hhvm.log_extern_compiler_perf"@),
        ("eval.enableintrinsicsextension"@, "hhvm.enable_intrinsics_extension"@),
        ("eval.reffinessinvariance"@, "hhvm.reffiness_invariance"@),
        ("eval.enforcegenericsub"@, "hhvm.enforce_generics_ub"@),
        ("hack.lang.disable_lval_as_an_expression"@, "hhvm.hack.lang.disable_lval_as_an_expression"@),
        ("hack.lang.phpism.disallowexecutionoperator"@, "hhvm.hack.lang.phpism.disallow_execution_operator"@),
        ("hack.lang.phpism.disablenontopleveldeclarations"@, "hhvm.hack.lang.phpism.disable_nontoplevel_declarations"@),
        ("hack.lang.phpism.disablestaticclosures"@, "hhvm.hack.lang.phpism.disable_static_closures"@),
        ("hack.lang.phpism.disablehaltcompiler"@, "hhvm.hack.lang.phpism.disable_halt_compiler"@),
        ("hack.lang.enablecoroutines"@, "hhvm.hack.lang.enable_coroutines"@),
        ("hack.lang.enablepocketuniverses"@, "hhvm.hack.lang.enable_pocket_universes"@),
        ("hhvm.lang.enable_constant_visibility_modifiers"@, "hhvm.hack.lang.enable_constant_visibility_modifiers"@),
        ("hhvm.lang.enable_class_level_where_clauses"@, "hhvm.hack.lang.enable_class_level_where_clauses"@),
        ("hhvm.lang.disable_legacy_soft_typehints"@, "hhvm.hack.lang.disable_legacy_soft_typehints"@),
        ("hhvm.lang.allow_new_attribute_syntax"@, "hhvm.hack.lang.allow_new_attribute_syntax"@),
        ("hhvm.lang.disable_legacy_attribute_syntax"@, "hhvm.hack.lang.disable_legacy_attribute_syntax"@),
        ("hhvm.lang.disallow_func_ptrs_in_constants"@, "hhvm.hack.lang.disallow_func_ptrs_in_constants"@),
        ("hhvm.lang.constdefaultfuncargs"@, "hhvm.hack.lang.const_default_func_args"@),
        ("hhvm.lang.abstractstaticprops"@, "hhvm.hack.lang.abstract_static_props"@),
        ("hhvm.lang.disableunsetclassconst"@, "hhvm.hack.lang.disable_unset_class_const"@),
    ]
}

/// The canonical key for `key`: the key its alias row names, or `key` itself
/// when it is no alias.
pub open spec fn canonical(key: Seq<char>) -> Seq<char> {
    match lookup(alias_rows(), key) {
        Some(c) => c,
        None => key,
    }
}

/// The alias table as executable rows, in the same order as `alias_rows`.
pub fn alias_entries() -> (r: Vec<(&'static str, &'static str)>)
    ensures
        r.deep_view() == alias_rows(),
{
    let r = vec![
        ("hack.compiler.sourcemapping", "eval.disassembler_source_mapping"),
        ("eval.disassemblersourcemapping", "eval.disassembler_source_mapping"),
        ("hack.compiler.constantfolding", "hack.compiler.constant_folding"),
        ("hack.compiler.optimizenullcheck", "hack.compiler.optimize_null_checks"),
        ("eval.createinoutwrapperfunctions", "hhvm.create_in_out_wrapper_functions"),
        ("eval.hackarrcompatnotices", "hhvm.hack_arr_compat_notices"),
        ("eval.hackarrdvarrs", "hhvm.hack_arr_dv_arrs"),
        ("eval.jitenablerenamefunction", "hhvm.jit_enable_rename_function"),
        ("eval.logexterncompilerperf", "hhvm.log_extern_compiler_perf"),
        ("eval.enableintrinsicsextension", "hhvm.enable_intrinsics_extension"),
        ("eval.reffinessinvariance", "hhvm.reffiness_invariance"),
        ("eval.enforcegenericsub", "hhvm.enforce_generics_ub"),
        ("hack.lang.disable_lval_as_an_expression", "hhvm.hack.lang.disable_lval_as_an_expression"),
        ("hack.lang.phpism.disallowexecutionoperator", "hhvm.hack.lang.phpism.disallow_execution_operator"),
        ("hack.lang.phpism.disablenontopleveldeclarations", "hhvm.hack.lang.phpism.disable_nontoplevel_declarations"),
        ("hack.lang.phpism.disablestaticclosures", "hhvm.hack.lang.phpism.disable_static_closures"),
        ("hack.lang.phpism.disablehaltcompiler", "hhvm.hack.lang.phpism.disable_halt_compiler"),
        ("hack.lang.enablecoroutines", "hhvm.hack.lang.enable_coroutines"),
        ("hack.lang.enablepocketuniverses", "hhvm.hack.lang.enable_pocket_universes"),
        ("hhvm.lang.enable_constant_visibility_modifiers", "hhvm.hack.lang.enable_constant_visibility_modifiers"),
        ("hhvm.lang.enable_class_level_where_clauses", "hhvm.hack.lang.enable_class_level_where_clauses"),
        ("hhvm.lang.disable_legacy_soft_typehints", "hhvm.hack.lang.disable_legacy_soft_typehints"),
        ("hhvm.lang.allow_new_attribute_syntax", "hhvm.hack.lang.allow_new_attribute_syntax"),
        ("hhvm.lang.disable_legacy_attribute_syntax", "hhvm.hack.lang.disable_legacy_attribute_syntax"),
        ("hhvm.lang.disallow_func_ptrs_in_constants", "hhvm.hack.lang.disallow_func_ptrs_in_constants"),
        ("hhvm.lang.constdefaultfuncargs", "hhvm.hack.lang.const_default_func_args"),
        ("hhvm.lang.abstractstaticprops", "hhvm.hack.lang.abstract_static_props"),
        ("hhvm.lang.disableunsetclassconst", "hhvm.hack.lang.disable_unset_class_const"),
    ];
    assert(r.deep_view() =~= alias_rows());
    r
}

/// The alias table, built once and consulted by reference.
pub struct AliasTable {
    rows: Vec<(&'static str, &'static str)>,
}

impl AliasTable {
    /// The table's rows, as `(alias, canonical key)`.
    pub closed spec fn rows(&self) -> Seq<(Seq<char>, Seq<char>)> {
        self.rows.deep_view()
    }

    /// The table holds exactly the rows of `alias_rows`.
    pub open spec fn wf(&self) -> bool {
        self.rows() == alias_rows()
    }

    pub fn new() -> (r: AliasTable)
        ensures
            r.wf(),
    {
        AliasTable { rows: alias_entries() }
    }

    /// Resolves `key` to its canonical spelling; a key that is no alias is
    /// returned unchanged.
    pub fn canonicalize(&self, key: &str) -> (r: String)
        requires
            self.wf(),
        ensures
            r@ == canonical(key@),
    {
        let rows = &self.rows;
        let k = key.to_owned();
        let mut i: usize = 0;
        assert(alias_rows().subrange(0, alias_rows().len() as int) =~= alias_rows());
        while i < rows.len()
            invariant
                rows.deep_view() == alias_rows(),
                k@ == key@,
                i <= rows.len(),
                lookup(alias_rows(), key@) == lookup(
                    alias_rows().subrange(i as int, alias_rows().len() as int),
                    key@,
                ),
            decreases rows.len() - i,
        {
            let (alias, canon) = rows[i];
            let a = alias.to_owned();
            proof {
                let rest = alias_rows().subrange(i as int, alias_rows().len() as int);
                assert(rest.drop_first() =~= alias_rows().subrange(i + 1, alias_rows().len() as int));
                assert(rest[0] == (alias@, canon@));
            }
            if a == k {
                return canon.to_owned();
            }
            i = i + 1;
        }
        proof {
            assert(alias_rows().subrange(i as int, alias_rows().len() as int).len() == 0);
        }
        k
    }
}

/// Resolves `key` to its canonical spelling with a freshly built alias table.
pub fn canonicalize(key: &str) -> (r: String)
    ensures
        r@ == canonical(key@),
{
    AliasTable::new().canonicalize(key)
}

/// No alias is listed twice.
pub proof fn lemma_alias_keys_unique()
    ensures
        keys_unique(alias_rows()),
{
    reveal_strlit("hack.compiler.sourcemapping");
    reveal_strlit("eval.disassemblersourcemapping");
    reveal_strlit("hack.compiler.constantfolding");
    reveal_strlit("hack.compiler.optimizenullcheck");
    reveal_strlit("eval.createinoutwrapperfunctions");
    reveal_strlit("eval.hackarrcompatnotices");
    reveal_strlit("eval.hackarrdvarrs");
    reveal_strlit("eval.jitenablerenamefunction");
    reveal_strlit("eval.logexterncompilerperf");
    reveal_strlit("eval.enableintrinsicsextension");
    reveal_strlit("eval.reffinessinvariance");
    reveal_strlit("eval.enforcegenericsub");
    reveal_strlit("hack.lang.disable_lval_as_an_expression");
    reveal_strlit("hack.lang.phpism.disallowexecutionoperator");
    reveal_strlit("hack.lang.phpism.disablenontopleveldeclarations");
    reveal_strlit("hack.lang.phpism.disablestaticclosures");
    reveal_strlit("hack.lang.phpism.disablehaltcompiler");
    reveal_strlit("hack.lang.enablecoroutines");
    reveal_strlit("hack.lang.enablepocketuniverses");
    reveal_strlit("hhvm.lang.enable_constant_visibility_modifiers");
    reveal_strlit("hhvm.lang.enable_class_level_where_clauses");
    reveal_strlit("hhvm.lang.disable_legacy_soft_typehints");
    reveal_strlit("hhvm.lang.allow_new_attribute_syntax");
    reveal_strlit("hhvm.lang.disable_legacy_attribute_syntax");
    reveal_strlit("hhvm.lang.disallow_func_ptrs_in_constants");
    reveal_strlit("hhvm.lang.constdefaultfuncargs");
    reveal_strlit("hhvm.lang.abstractstaticprops");
    reveal_strlit("hhvm.lang.disableunsetclassconst");
    assert("eval.disassemblersourcemapping"@[5] != "eval.enableintrinsicsextension"@[5]);
    assert("eval.disassemblersourcemapping"@[0] != "hhvm.lang.constdefaultfuncargs"@[0]);
    assert("eval.enableintrinsicsextension"@[0] != "hhvm.lang.constdefaultfuncargs"@[0]);
    assert("hack.compiler.constantfolding"@[1] != "hhvm.lang.abstractstaticprops"@[1]);
    assert("hack.compiler.optimizenullcheck"@[5] != "hack.lang.enablepocketuniverses"@[5]);
    assert("eval.createinoutwrapperfunctions"@[0] != "hhvm.lang.disableunsetclassconst"@[0]);
    assert("eval.logexterncompilerperf"@[0] != "hack.lang.enablecoroutines"@[0]);
    assert("hack.lang.disable_lval_as_an_expression"@[1] != "hhvm.lang.disable_legacy_soft_typehints"@[1]);
    assert("hack.lang.phpism.disallowexecutionoperator"@[1] != "hhvm.lang.enable_class_level_where_clauses"@[1]);
    assert("hack.lang.phpism.disablehaltcompiler"@[1] != "hhvm.lang.allow_new_attribute_syntax"@[1]);
    assert("hhvm.lang.disable_legacy_attribute_syntax"@[14] != "hhvm.lang.disallow_func_ptrs_in_constants"@[14]);
    let rows = alias_rows();
    assert forall|i: int, j: int| 0 <= i < j < rows.len() implies rows[i].0 != rows[j].0 by {
        if rows[i].0 == rows[j].0 {
            assert(rows[i].0.len() == rows[j].0.len());
        }
    }
}

/// Canonicalizing the alias of any row of the alias table yields exactly that
/// row's canonical key.
pub proof fn law_alias_resolves(i: int)
    requires
        0 <= i < alias_rows().len(),
    ensures
        canonical(alias_rows()[i].0) == alias_rows()[i].1,
{
    lemma_alias_keys_unique();
    lemma_lookup_row(alias_rows(), i);
}

/// Canonicalizing a key that is no alias returns it unchanged, whether or not it
/// is itself some row's canonical key.
pub proof fn law_non_alias_unchanged(key: Seq<char>)
    requires
        absent(alias_rows(), key),
    ensures
        canonical(key) == key,
{
    lemma_lookup_absent(alias_rows(), key);
}

} // verus!
