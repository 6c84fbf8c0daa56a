//! What applying the controller's plans leaves on disk.
//!
//! These theorems are stated against the filesystem model: applying an
//! enable plan materializes every function directory and attribute file
//! with exactly the declared bytes, makes every configuration symlink
//! resolve to its function directory, and applying a disable plan
//! leaves nothing at or under the gadget root.  A disable plan also
//! removes exactly the paths the enable plan created, in exact reverse
//! creation order.

use vstd::prelude::*;
use crate::fs_model::FsEntry;
use crate::fs_model::apply_ops;
use crate::fs_model::created_paths;
use crate::fs_model::is_create;
use crate::fs_model::lemma_lookup_determined;
use crate::fs_model::lemma_paths_concat;
use crate::fs_model::lemma_paths_links;
use crate::fs_model::lemma_paths_one;
use crate::fs_model::lemma_paths_removes;
use crate::fs_model::lemma_paths_writes;
use crate::fs_model::lemma_reverse_concat;
use crate::fs_model::op_entry;
use crate::fs_model::op_target;
use crate::fs_model::removed_paths;
use crate::fsop::FsOpShape;
use crate::function::FunctionShape;
use crate::function::dot_free;
use crate::function::key_dir_name;
use crate::function::lemma_function_wf;
use crate::function::lemma_key_dir_name_injective;
use crate::function::lemma_key_dir_name_parts;
use crate::function::wf_function;
use crate::config::cfg_dir_name;
use crate::config::cfg_head_ops;
use crate::config::cfg_link_ops;
use crate::config::cfg_ops;
use crate::gadget::GadgetShape;
use crate::gadget::UsbGadget;
use crate::gadget::configs_ops;
use crate::gadget::functions_ops;
use crate::gadget::gadget_head_ops;
use crate::function::fn_ops;
use crate::state::disable_ops;
use crate::state::enable_ops;

verus! {

/// Every function of every gadget value is well-formed: its type
/// identifier is dot-free and its attribute names do not repeat.
pub proof fn lemma_gadget_functions_wf(gadget: UsbGadget)
    ensures
        forall|i: int|
            0 <= i < gadget@.functions.len() ==> wf_function(#[trigger] gadget@.functions[i]),
{
    assert forall|i: int| 0 <= i < gadget@.functions.len() implies wf_function(
        #[trigger] gadget@.functions[i],
    ) by {
        lemma_function_wf(gadget.functions@[i]);
        assert(gadget.functions@[i]@ == gadget@.functions[i]);
    }
}

/// Applying a disable plan leaves no entry at or under the gadget root:
/// the plan's final operation removes the root directory together with
/// everything below it.
pub proof fn disable_leaves_no_residue(
    fs: Map<Seq<Seq<char>>, FsEntry>,
    g: GadgetShape,
    p: Seq<Seq<char>>,
)
    requires
        seq![g.name].is_prefix_of(p),
    ensures
        !apply_ops(fs, disable_ops(g)).contains_key(p),
{
    let ops = disable_ops(g);
    assert(ops.last() == FsOpShape::RemoveDir { path: seq![g.name] });
    assert(Set::new(|q: Seq<Seq<char>>| seq![g.name].is_prefix_of(q)).contains(p));
}

/// Enabling and then disabling a gadget leaves no entry at or under
/// its root, whatever the filesystem held before.
pub proof fn enable_then_disable_leaves_nothing(
    fs: Map<Seq<Seq<char>>, FsEntry>,
    g: GadgetShape,
    udc: Seq<char>,
    p: Seq<Seq<char>>,
)
    requires
        seq![g.name].is_prefix_of(p),
    ensures
        !apply_ops(apply_ops(fs, enable_ops(g, udc)), disable_ops(g)).contains_key(p),
{
    disable_leaves_no_residue(apply_ops(fs, enable_ops(g, udc)), g, p);
}

/// Whether `x` is an element of some function's plan.
pub open spec fn from_fn_chunk(p: Seq<Seq<char>>, fs: Seq<FunctionShape>, x: FsOpShape) -> bool {
    exists|i: int, j: int|
        0 <= i < fs.len() && 0 <= j < fn_ops(p, fs[i]).len() && x == #[trigger] fn_ops(
            p,
            fs[i],
        )[j]
}

/// Every element of a function-list plan is an element of one
/// function's plan.
proof fn lemma_functions_ops_index(p: Seq<Seq<char>>, fs: Seq<FunctionShape>)
    ensures
        forall|k: int|
            0 <= k < functions_ops(p, fs).len() ==> from_fn_chunk(
                p,
                fs,
                #[trigger] functions_ops(p, fs)[k],
            ),
    decreases fs.len(),
{
    if fs.len() > 0 {
        lemma_functions_ops_index(p, fs.drop_last());
        let prefix = functions_ops(p, fs.drop_last());
        assert forall|k: int| 0 <= k < functions_ops(p, fs).len() implies from_fn_chunk(
            p,
            fs,
            #[trigger] functions_ops(p, fs)[k],
        ) by {
            if k < prefix.len() {
                assert(functions_ops(p, fs)[k] == prefix[k]);
                assert(from_fn_chunk(p, fs.drop_last(), prefix[k]));
                let (i0, j0): (int, int) = choose|i: int, j: int|
                    0 <= i < fs.drop_last().len() && 0 <= j < fn_ops(p, fs.drop_last()[i]).len()
                        && prefix[k] == #[trigger] fn_ops(p, fs.drop_last()[i])[j];
                assert(fs.drop_last()[i0] == fs[i0]);
                assert(functions_ops(p, fs)[k] == fn_ops(p, fs[i0])[j0]);
            } else {
                let i0 = fs.len() - 1;
                let j0 = k - prefix.len();
                assert(fs.last() == fs[i0]);
                assert(functions_ops(p, fs)[k] == fn_ops(p, fs[i0])[j0]);
            }
        }
    }
}

/// A named element of one function's plan is in the function-list plan.
proof fn lemma_functions_ops_has(p: Seq<Seq<char>>, fs: Seq<FunctionShape>, i: int, j: int)
    requires
        0 <= i < fs.len(),
        0 <= j < fn_ops(p, fs[i]).len(),
    ensures
        exists|k: int|
            0 <= k < functions_ops(p, fs).len() && #[trigger] functions_ops(p, fs)[k] == fn_ops(
                p,
                fs[i],
            )[j],
    decreases fs.len(),
{
    let prefix = functions_ops(p, fs.drop_last());
    if i == fs.len() - 1 {
        assert(fs.last() == fs[i]);
        let k = prefix.len() + j;
        assert(functions_ops(p, fs)[k] == fn_ops(p, fs[i])[j]);
    } else {
        assert(fs.drop_last()[i] == fs[i]);
        lemma_functions_ops_has(p, fs.drop_last(), i, j);
        let k0 = choose|k: int|
            0 <= k < prefix.len() && #[trigger] prefix[k] == fn_ops(p, fs[i])[j];
        assert(functions_ops(p, fs)[k0] == fn_ops(p, fs[i])[j]);
    }
}

/// Whether `x` is an element of some configuration's plan.
pub open spec fn from_cfg_chunk(
    cp: Seq<Seq<char>>,
    fp: Seq<Seq<char>>,
    lang: Seq<char>,
    cs: Seq<crate::config::ConfigShape>,
    x: FsOpShape,
) -> bool {
    exists|i: int, j: int|
        0 <= i < cs.len() && 0 <= j < cfg_ops(cp, fp, lang, cs[i]).len() && x
            == #[trigger] cfg_ops(cp, fp, lang, cs[i])[j]
}

/// Every element of a configuration-list plan is an element of one
/// configuration's plan.
proof fn lemma_configs_ops_index(
    cp: Seq<Seq<char>>,
    fp: Seq<Seq<char>>,
    lang: Seq<char>,
    cs: Seq<crate::config::ConfigShape>,
)
    ensures
        forall|k: int|
            0 <= k < configs_ops(cp, fp, lang, cs).len() ==> from_cfg_chunk(
                cp,
                fp,
                lang,
                cs,
                #[trigger] configs_ops(cp, fp, lang, cs)[k],
            ),
    decreases cs.len(),
{
    if cs.len() > 0 {
        lemma_configs_ops_index(cp, fp, lang, cs.drop_last());
        let prefix = configs_ops(cp, fp, lang, cs.drop_last());
        assert forall|k: int| 0 <= k < configs_ops(cp, fp, lang, cs).len() implies from_cfg_chunk(
            cp,
            fp,
            lang,
            cs,
            #[trigger] configs_ops(cp, fp, lang, cs)[k],
        ) by {
            if k < prefix.len() {
                assert(configs_ops(cp, fp, lang, cs)[k] == prefix[k]);
                assert(from_cfg_chunk(cp, fp, lang, cs.drop_last(), prefix[k]));
                let (i0, j0): (int, int) = choose|i: int, j: int|
                    0 <= i < cs.drop_last().len() && 0 <= j < cfg_ops(
                        cp,
                        fp,
                        lang,
                        cs.drop_last()[i],
                    ).len() && prefix[k] == #[trigger] cfg_ops(cp, fp, lang, cs.drop_last()[i])[j];
                assert(cs.drop_last()[i0] == cs[i0]);
                assert(configs_ops(cp, fp, lang, cs)[k] == cfg_ops(cp, fp, lang, cs[i0])[j0]);
            } else {
                let i0 = cs.len() - 1;
                let j0 = k - prefix.len();
                assert(cs.last() == cs[i0]);
                assert(configs_ops(cp, fp, lang, cs)[k] == cfg_ops(cp, fp, lang, cs[i0])[j0]);
            }
        }
    }
}

/// A named element of one configuration's plan is in the list plan.
proof fn lemma_configs_ops_has(
    cp: Seq<Seq<char>>,
    fp: Seq<Seq<char>>,
    lang: Seq<char>,
    cs: Seq<crate::config::ConfigShape>,
    i: int,
    j: int,
)
    requires
        0 <= i < cs.len(),
        0 <= j < cfg_ops(cp, fp, lang, cs[i]).len(),
    ensures
        exists|k: int|
            0 <= k < configs_ops(cp, fp, lang, cs).len() && #[trigger] configs_ops(
                cp,
                fp,
                lang,
                cs,
            )[k] == cfg_ops(cp, fp, lang, cs[i])[j],
    decreases cs.len(),
{
    let prefix = configs_ops(cp, fp, lang, cs.drop_last());
    if i == cs.len() - 1 {
        assert(cs.last() == cs[i]);
        let k = prefix.len() + j;
        assert(configs_ops(cp, fp, lang, cs)[k] == cfg_ops(cp, fp, lang, cs[i])[j]);
    } else {
        assert(cs.drop_last()[i] == cs[i]);
        lemma_configs_ops_has(cp, fp, lang, cs.drop_last(), i, j);
        let k0 = choose|k: int|
            0 <= k < prefix.len() && #[trigger] prefix[k] == cfg_ops(cp, fp, lang, cs[i])[j];
        assert(configs_ops(cp, fp, lang, cs)[k0] == cfg_ops(cp, fp, lang, cs[i])[j]);
    }
}

/// Head operations create entries at the gadget root, directly below
/// it, or inside the string table.
proof fn lemma_head_ops_shape(base: Seq<Seq<char>>, g: GadgetShape)
    ensures
        forall|k: int|
            0 <= k < gadget_head_ops(base, g).len() ==> {
                let x = #[trigger] gadget_head_ops(base, g)[k];
                &&& is_create(x)
                &&& (op_target(x).len() <= base.len() + 1 || op_target(x)[base.len() as int]
                    == "strings"@)
            },
{
}

/// The form of each element of one function's plan.
proof fn lemma_fn_ops_elem(p: Seq<Seq<char>>, f: FunctionShape, j: int)
    requires
        0 <= j < fn_ops(p, f).len(),
    ensures
        fn_ops(p, f).len() == 1 + f.attrs.len(),
        j == 0 ==> fn_ops(p, f)[j] == (FsOpShape::CreateDir {
            path: p.push(key_dir_name(f.key())),
        }),
        j > 0 ==> fn_ops(p, f)[j] == (FsOpShape::WriteFile {
            path: p.push(key_dir_name(f.key())).push(f.attrs[j - 1].0),
            contents: f.attrs[j - 1].1,
        }),
{
}

/// The form of each element of one configuration's plan.
proof fn lemma_cfg_ops_elem(
    cp: Seq<Seq<char>>,
    fp: Seq<Seq<char>>,
    lang: Seq<char>,
    c: crate::config::ConfigShape,
    j: int,
)
    requires
        0 <= j < cfg_ops(cp, fp, lang, c).len(),
    ensures
        ({
            let dir = cp.push(cfg_dir_name(c));
            let x = cfg_ops(cp, fp, lang, c)[j];
            &&& is_create(x)
            &&& op_target(x).len() > cp.len()
            &&& cp.is_prefix_of(op_target(x))
            &&& {
                ||| x == (FsOpShape::CreateDir { path: dir })
                ||| x == (FsOpShape::CreateDir { path: dir.push("strings"@) })
                ||| x == (FsOpShape::CreateDir { path: dir.push("strings"@).push(lang) })
                ||| (x matches FsOpShape::WriteFile { path, contents } && path == dir.push(
                    "strings"@,
                ).push(lang).push("configuration"@))
                ||| (x matches FsOpShape::WriteFile { path, contents } && path == dir.push(
                    "MaxPower"@,
                ))
                ||| exists|t: int|
                    0 <= t < c.functions.len() && x == (FsOpShape::CreateSymlink {
                        target: fp.push(key_dir_name(#[trigger] c.functions[t])),
                        link: cp.push(cfg_dir_name(c)).push(key_dir_name(c.functions[t])),
                    })
            }
        }),
{
    let hl = cfg_head_ops(cp, lang, c).len();
    if j >= hl {
        let t = j - hl;
        assert(cfg_ops(cp, fp, lang, c)[j] == cfg_link_ops(cp, fp, c)[t]);
    }
}

/// `strings` and `MaxPower` hold no dot, so neither equals a function
/// directory name.
proof fn lemma_cfg_literals_dot_free()
    ensures
        dot_free("strings"@),
        dot_free("MaxPower"@),
{
    reveal_strlit("strings");
    reveal_strlit("MaxPower");
    assert forall|i: int| 0 <= i < "strings"@.len() implies "strings"@[i] != '.' by {
        if i == 0 {
        } else if i == 1 {
        } else if i == 2 {
        } else if i == 3 {
        } else if i == 4 {
        } else if i == 5 {
        } else {
            assert(i == 6);
        }
    }
    assert forall|i: int| 0 <= i < "MaxPower"@.len() implies "MaxPower"@[i] != '.' by {
        if i == 0 {
        } else if i == 1 {
        } else if i == 2 {
        } else if i == 3 {
        } else if i == 4 {
        } else if i == 5 {
        } else if i == 6 {
        } else {
            assert(i == 7);
        }
    }
}

/// A function directory name is never a dot-free string.
proof fn lemma_key_dir_not_plain(k: crate::function::FunctionKeyShape, s: Seq<char>)
    requires
        dot_free(s),
    ensures
        key_dir_name(k) != s,
{
    lemma_key_dir_name_parts(k);
    if key_dir_name(k) == s {
        assert(s[k.func_type.len() as int] == '.');
    }
}

/// Every operation of an enable plan is a creation, and it acts at the
/// root or one level below, inside the string table, inside one
/// function's plan, or inside one configuration's plan.
proof fn lemma_enable_plan_elems(g: GadgetShape, udc: Seq<char>)
    ensures
        forall|k: int|
            0 <= k < enable_ops(g, udc).len() ==> {
                let x = #[trigger] enable_ops(g, udc)[k];
                let base = seq![g.name];
                &&& is_create(x)
                &&& {
                    ||| op_target(x).len() <= 2
                    ||| op_target(x)[1] == "strings"@
                    ||| from_fn_chunk(base.push("functions"@), g.functions, x)
                    ||| from_cfg_chunk(
                        base.push("configs"@),
                        base.push("functions"@),
                        crate::fmt::hex4_chars(g.lang),
                        g.configs,
                        x,
                    )
                }
            },
{
    let base = seq![g.name];
    let fp = base.push("functions"@);
    let cp = base.push("configs"@);
    let lang = crate::fmt::hex4_chars(g.lang);
    let head = gadget_head_ops(base, g);
    let fo = functions_ops(fp, g.functions);
    let co = configs_ops(cp, fp, lang, g.configs);
    let plan = enable_ops(g, udc);
    lemma_head_ops_shape(base, g);
    lemma_functions_ops_index(fp, g.functions);
    lemma_configs_ops_index(cp, fp, lang, g.configs);
    let hl = head.len() as int;
    let fl = fo.len() as int;
    let cl = co.len() as int;
    assert(plan.len() == hl + fl + 1 + cl + 1);
    assert forall|k: int| 0 <= k < plan.len() implies {
        let x = #[trigger] plan[k];
        &&& is_create(x)
        &&& {
            ||| op_target(x).len() <= 2
            ||| op_target(x)[1] == "strings"@
            ||| from_fn_chunk(fp, g.functions, x)
            ||| from_cfg_chunk(cp, fp, lang, g.configs, x)
        }
    } by {
        if k < hl {
            assert(plan[k] == head[k]);
        } else if k < hl + fl {
            assert(plan[k] == fo[k - hl]);
            assert(from_fn_chunk(fp, g.functions, plan[k]));
            let (a, b): (int, int) = choose|i: int, j: int|
                0 <= i < g.functions.len() && 0 <= j < fn_ops(fp, g.functions[i]).len() && plan[k]
                    == #[trigger] fn_ops(fp, g.functions[i])[j];
            lemma_fn_ops_elem(fp, g.functions[a], b);
        } else if k == hl + fl {
            assert(plan[k] == (FsOpShape::CreateDir { path: cp }));
        } else if k < hl + fl + 1 + cl {
            assert(plan[k] == co[k - (hl + fl + 1)]);
            assert(from_cfg_chunk(cp, fp, lang, g.configs, plan[k]));
            let (a, b): (int, int) = choose|i: int, j: int|
                0 <= i < g.configs.len() && 0 <= j < cfg_ops(cp, fp, lang, g.configs[i]).len()
                    && plan[k] == #[trigger] cfg_ops(cp, fp, lang, g.configs[i])[j];
            lemma_cfg_ops_elem(cp, fp, lang, g.configs[a], b);
        } else {
            assert(plan[k] == (FsOpShape::WriteFile {
                path: seq![g.name, "UDC"@],
                contents: vstd::utf8::encode_utf8(udc),
            }));
        }
    }
}

/// After an enable plan is applied, the chosen function's directory
/// exists under `functions/` and every one of its attribute files holds
/// exactly the declared bytes.  The well-formedness premise holds of
/// every gadget value, by `lemma_gadget_functions_wf`.
pub proof fn enable_materializes_functions(
    fs0: Map<Seq<Seq<char>>, FsEntry>,
    g: GadgetShape,
    udc: Seq<char>,
    i: int,
)
    requires
        g.valid(),
        forall|k: int| 0 <= k < g.functions.len() ==> wf_function(#[trigger] g.functions[k]),
        0 <= i < g.functions.len(),
    ensures
        ({
            let fs1 = apply_ops(fs0, enable_ops(g, udc));
            let fdir = seq![g.name, "functions"@].push(key_dir_name(g.functions[i].key()));
            &&& fs1.contains_key(fdir)
            &&& fs1[fdir] == FsEntry::Dir
            &&& forall|j: int|
                #![trigger g.functions[i].attrs[j]]
                0 <= j < g.functions[i].attrs.len() ==> {
                    let ap = fdir.push(g.functions[i].attrs[j].0);
                    fs1.contains_key(ap) && fs1[ap] == (FsEntry::File {
                        contents: g.functions[i].attrs[j].1,
                    })
                }
        }),
{
    let base = seq![g.name];
    let fp = base.push("functions"@);
    let cp = base.push("configs"@);
    let lang = crate::fmt::hex4_chars(g.lang);
    let plan = enable_ops(g, udc);
    let hl = gadget_head_ops(base, g).len() as int;
    let fo = functions_ops(fp, g.functions);
    let dn_i = key_dir_name(g.functions[i].key());
    let fdir = seq![g.name, "functions"@].push(dn_i);
    reveal_strlit("functions");
    reveal_strlit("configs");
    reveal_strlit("strings");
    assert("functions"@.len() == 9 && "strings"@.len() == 7 && "configs"@.len() == 7);
    assert(fp =~= seq![g.name, "functions"@]);
    assert(fdir == fp.push(dn_i));
    assert(fdir.len() == 3 && fdir[1] == "functions"@);
    lemma_enable_plan_elems(g, udc);

    assert forall|a: int|
        0 <= a < g.functions.len() && key_dir_name(g.functions[a].key()) == dn_i implies a
        == i by {
        if a != i {
            lemma_key_dir_name_injective(g.functions[a].key(), g.functions[i].key());
        }
    }

    lemma_fn_ops_elem(fp, g.functions[i], 0);
    lemma_functions_ops_has(fp, g.functions, i, 0);
    let k0 = choose|k: int|
        0 <= k < fo.len() && #[trigger] fo[k] == fn_ops(fp, g.functions[i])[0];
    assert(plan[hl + k0] == fo[k0]);
    assert(op_target(plan[hl + k0]) == fdir && 0 <= hl + k0 < plan.len());

    assert forall|k: int|
        0 <= k < plan.len() && op_target(#[trigger] plan[k]) == fdir implies op_entry(plan[k])
        == FsEntry::Dir by {
        let x = plan[k];
        if op_target(x).len() <= 2 {
            assert(false);
        } else if op_target(x)[1] == "strings"@ {
            assert(false);
        } else if from_fn_chunk(fp, g.functions, x) {
            let (a, b): (int, int) = choose|a: int, b: int|
                0 <= a < g.functions.len() && 0 <= b < fn_ops(fp, g.functions[a]).len() && x
                    == #[trigger] fn_ops(fp, g.functions[a])[b];
            lemma_fn_ops_elem(fp, g.functions[a], b);
            if b == 0 {
                assert(op_target(x)[2] == key_dir_name(g.functions[a].key()));
                assert(a == i);
            } else {
                assert(op_target(x).len() == 4);
                assert(false);
            }
        } else {
            let (a, b): (int, int) = choose|a: int, b: int|
                0 <= a < g.configs.len() && 0 <= b < cfg_ops(cp, fp, lang, g.configs[a]).len()
                    && x == #[trigger] cfg_ops(cp, fp, lang, g.configs[a])[b];
            lemma_cfg_ops_elem(cp, fp, lang, g.configs[a], b);
            assert(op_target(x)[1] == "configs"@);
            assert(false);
        }
    }
    lemma_lookup_determined(fs0, plan, fdir, FsEntry::Dir);

    assert forall|j: int|
        #![trigger g.functions[i].attrs[j]]
        0 <= j < g.functions[i].attrs.len() implies {
        let ap = fdir.push(g.functions[i].attrs[j].0);
        apply_ops(fs0, plan).contains_key(ap) && apply_ops(fs0, plan)[ap] == (FsEntry::File {
            contents: g.functions[i].attrs[j].1,
        })
    } by {
        let ap = fdir.push(g.functions[i].attrs[j].0);
        let e = FsEntry::File { contents: g.functions[i].attrs[j].1 };
        assert(ap.len() == 4 && ap[1] == "functions"@);
        lemma_fn_ops_elem(fp, g.functions[i], j + 1);
        lemma_functions_ops_has(fp, g.functions, i, j + 1);
        let k1 = choose|k: int|
            0 <= k < fo.len() && #[trigger] fo[k] == fn_ops(fp, g.functions[i])[j + 1];
        assert(plan[hl + k1] == fo[k1]);
        assert(op_target(plan[hl + k1]) == ap && 0 <= hl + k1 < plan.len());

        assert forall|k: int|
            0 <= k < plan.len() && op_target(#[trigger] plan[k]) == ap implies op_entry(plan[k])
            == e by {
            let x = plan[k];
            if op_target(x).len() <= 2 {
                assert(false);
            } else if op_target(x)[1] == "strings"@ {
                assert(false);
            } else if from_fn_chunk(fp, g.functions, x) {
                let (a, b): (int, int) = choose|a: int, b: int|
                    0 <= a < g.functions.len() && 0 <= b < fn_ops(fp, g.functions[a]).len() && x
                        == #[trigger] fn_ops(fp, g.functions[a])[b];
                lemma_fn_ops_elem(fp, g.functions[a], b);
                if b == 0 {
                    assert(op_target(x).len() == 3);
                    assert(false);
                } else {
                    assert(op_target(x)[2] == key_dir_name(g.functions[a].key()));
                    assert(a == i);
                    assert(op_target(x)[3] == g.functions[a].attrs[b - 1].0);
                    assert(g.functions[i].attrs[b - 1].0 == g.functions[i].attrs[j].0);
                    if b - 1 != j {
                        if b - 1 < j {
                            assert(g.functions[i].attrs[b - 1].0 != g.functions[i].attrs[j].0);
                        } else {
                            assert(g.functions[i].attrs[j].0 != g.functions[i].attrs[b - 1].0);
                        }
                        assert(false);
                    }
                }
            } else {
                let (a, b): (int, int) = choose|a: int, b: int|
                    0 <= a < g.configs.len() && 0 <= b < cfg_ops(cp, fp, lang, g.configs[a]).len()
                        && x == #[trigger] cfg_ops(cp, fp, lang, g.configs[a])[b];
                lemma_cfg_ops_elem(cp, fp, lang, g.configs[a], b);
                assert(op_target(x)[1] == "configs"@);
                assert(false);
            }
        }
        lemma_lookup_determined(fs0, plan, ap, e);
    }
}

/// After an enable plan is applied, every function symlink of every
/// configuration resolves: the link points at the referenced function's
/// directory under `functions/`, and that directory exists.  The
/// well-formedness premise holds of every gadget value, by
/// `lemma_gadget_functions_wf`.
pub proof fn enable_links_resolve(
    fs0: Map<Seq<Seq<char>>, FsEntry>,
    g: GadgetShape,
    udc: Seq<char>,
    ci: int,
    fi: int,
)
    requires
        g.valid(),
        forall|k: int| 0 <= k < g.functions.len() ==> wf_function(#[trigger] g.functions[k]),
        0 <= ci < g.configs.len(),
        0 <= fi < g.configs[ci].functions.len(),
    ensures
        ({
            let fs1 = apply_ops(fs0, enable_ops(g, udc));
            let key = g.configs[ci].functions[fi];
            let target = seq![g.name, "functions"@].push(key_dir_name(key));
            let link = seq![g.name, "configs"@].push(cfg_dir_name(g.configs[ci])).push(
                key_dir_name(key),
            );
            &&& fs1.contains_key(link)
            &&& fs1[link] == (FsEntry::Link { target })
            &&& fs1.contains_key(target)
            &&& fs1[target] == FsEntry::Dir
        }),
{
    let base = seq![g.name];
    let fp = base.push("functions"@);
    let cp = base.push("configs"@);
    let lang = crate::fmt::hex4_chars(g.lang);
    let plan = enable_ops(g, udc);
    let hl = gadget_head_ops(base, g).len() as int;
    let fl = functions_ops(fp, g.functions).len() as int;
    let co = configs_ops(cp, fp, lang, g.configs);
    let key = g.configs[ci].functions[fi];
    let kd = key_dir_name(key);
    let target = fp.push(kd);
    let link = cp.push(cfg_dir_name(g.configs[ci])).push(kd);
    reveal_strlit("functions");
    reveal_strlit("configs");
    reveal_strlit("strings");
    assert(fp =~= seq![g.name, "functions"@]);
    assert(cp =~= seq![g.name, "configs"@]);
    assert("functions"@.len() == 9 && "strings"@.len() == 7 && "configs"@.len() == 7);
    assert("configs"@ != "strings"@) by {
        assert("configs"@[0] == 'c' && "strings"@[0] == 's');
    }

    assert(crate::gadget::resolves(g.functions, key));
    let w = choose|x: int| 0 <= x < g.functions.len() && g.functions[x].key() == key;
    enable_materializes_functions(fs0, g, udc, w);
    assert(key_dir_name(g.functions[w].key()) == kd);

    lemma_enable_plan_elems(g, udc);
    lemma_cfg_literals_dot_free();
    lemma_key_dir_not_plain(key, "strings"@);
    lemma_key_dir_not_plain(key, "MaxPower"@);

    let chl = cfg_head_ops(cp, lang, g.configs[ci]).len() as int;
    assert(cfg_ops(cp, fp, lang, g.configs[ci])[chl + fi] == cfg_link_ops(
        cp,
        fp,
        g.configs[ci],
    )[fi]);
    assert(cfg_ops(cp, fp, lang, g.configs[ci])[chl + fi] == (FsOpShape::CreateSymlink {
        target,
        link,
    }));
    lemma_configs_ops_has(cp, fp, lang, g.configs, ci, chl + fi);
    let k0 = choose|k: int|
        0 <= k < co.len() && #[trigger] co[k] == cfg_ops(cp, fp, lang, g.configs[ci])[chl + fi];
    assert(plan[hl + fl + 1 + k0] == co[k0]);
    assert(op_target(plan[hl + fl + 1 + k0]) == link && 0 <= hl + fl + 1 + k0 < plan.len());

    assert(link.len() == 4 && link[1] == "configs"@ && link[3] == kd);
    assert forall|k: int|
        0 <= k < plan.len() && op_target(#[trigger] plan[k]) == link implies op_entry(plan[k])
        == (FsEntry::Link { target }) by {
        let x = plan[k];
        if op_target(x).len() <= 2 {
            assert(false);
        } else if op_target(x)[1] == "strings"@ {
            assert(false);
        } else if from_fn_chunk(fp, g.functions, x) {
            let (a, b): (int, int) = choose|a: int, b: int|
                0 <= a < g.functions.len() && 0 <= b < fn_ops(fp, g.functions[a]).len() && x
                    == #[trigger] fn_ops(fp, g.functions[a])[b];
            lemma_fn_ops_elem(fp, g.functions[a], b);
            assert(op_target(x)[1] == "functions"@);
            assert(false);
        } else {
            let (a, b): (int, int) = choose|a: int, b: int|
                0 <= a < g.configs.len() && 0 <= b < cfg_ops(cp, fp, lang, g.configs[a]).len()
                    && x == #[trigger] cfg_ops(cp, fp, lang, g.configs[a])[b];
            lemma_cfg_ops_elem(cp, fp, lang, g.configs[a], b);
            let dir_a = cp.push(cfg_dir_name(g.configs[a]));
            if x == (FsOpShape::CreateDir { path: dir_a.push("strings"@) }) {
                assert(op_target(x)[3] == "strings"@);
                assert(false);
            } else if x matches FsOpShape::WriteFile { path, contents } && path == dir_a.push(
                "MaxPower"@,
            ) {
                assert(op_target(x)[3] == "MaxPower"@);
                assert(false);
            } else {
                let t = choose|t: int|
                    0 <= t < g.configs[a].functions.len() && x == (FsOpShape::CreateSymlink {
                        target: fp.push(key_dir_name(#[trigger] g.configs[a].functions[t])),
                        link: cp.push(cfg_dir_name(g.configs[a])).push(
                            key_dir_name(g.configs[a].functions[t]),
                        ),
                    });
                assert(op_target(x)[3] == key_dir_name(g.configs[a].functions[t]));
                assert(key_dir_name(g.configs[a].functions[t]) == kd);
            }
        }
    }
    lemma_lookup_determined(fs0, plan, link, FsEntry::Link { target });
}

/// The directory paths of a list of functions under `functions/`, in
/// declaration order.
pub open spec fn fn_dirs(fp: Seq<Seq<char>>, fs: Seq<FunctionShape>) -> Seq<Seq<Seq<char>>> {
    Seq::new(fs.len(), |i: int| fp.push(key_dir_name(fs[i].key())))
}

/// Path accounting for a plan shaped like a gadget head: one directory,
/// attribute writes, the two string-table directories, string writes,
/// and the `functions` directory.
proof fn lemma_paths_head_shape(
    h: Seq<FsOpShape>,
    d0: Seq<Seq<char>>,
    d1: Seq<Seq<char>>,
    d2: Seq<Seq<char>>,
    d3: Seq<Seq<char>>,
)
    requires
        h.len() >= 9,
        h[0] == (FsOpShape::CreateDir { path: d0 }),
        forall|i: int| 1 <= i < h.len() - 6 ==> (#[trigger] h[i]) is WriteFile,
        h[h.len() - 6] == (FsOpShape::CreateDir { path: d1 }),
        h[h.len() - 5] == (FsOpShape::CreateDir { path: d2 }),
        forall|i: int| h.len() - 4 <= i < h.len() - 1 ==> (#[trigger] h[i]) is WriteFile,
        h[h.len() - 1] == (FsOpShape::CreateDir { path: d3 }),
    ensures
        created_paths(h) == seq![d0, d1, d2, d3],
        removed_paths(h) == Seq::<Seq<Seq<char>>>::empty(),
{
    let n = h.len() as int;
    let w1 = h.subrange(1, n - 6);
    let w2 = h.subrange(n - 4, n - 1);
    let s0 = seq![h[0]];
    let s1 = seq![h[n - 6]];
    let s2 = seq![h[n - 5]];
    let s3 = seq![h[n - 1]];
    assert(h =~= s0 + w1 + s1 + s2 + w2 + s3);
    lemma_paths_one(h[0]);
    lemma_paths_one(h[n - 6]);
    lemma_paths_one(h[n - 5]);
    lemma_paths_one(h[n - 1]);
    assert(forall|k: int| 0 <= k < w1.len() ==> (#[trigger] w1[k]) is WriteFile);
    assert(forall|k: int| 0 <= k < w2.len() ==> (#[trigger] w2[k]) is WriteFile);
    lemma_paths_writes(w1);
    lemma_paths_writes(w2);
    lemma_paths_concat(s0, w1);
    lemma_paths_concat(s0 + w1, s1);
    lemma_paths_concat(s0 + w1 + s1, s2);
    lemma_paths_concat(s0 + w1 + s1 + s2, w2);
    lemma_paths_concat(s0 + w1 + s1 + s2 + w2, s3);
    assert(created_paths(h) =~= seq![d0, d1, d2, d3]);
    assert(removed_paths(h) =~= Seq::<Seq<Seq<char>>>::empty());
}

/// Path accounting for a gadget head: the gadget root, the two
/// string-table levels, and the `functions` directory, in that order.
proof fn lemma_paths_gadget_head(base: Seq<Seq<char>>, g: GadgetShape)
    ensures
        created_paths(gadget_head_ops(base, g)) == seq![
            base,
            base.push("strings"@),
            base.push("strings"@).push(crate::fmt::hex4_chars(g.lang)),
            base.push("functions"@),
        ],
        removed_paths(gadget_head_ops(base, g)) == Seq::<Seq<Seq<char>>>::empty(),
{
    let h = gadget_head_ops(base, g);
    let d1 = base.push("strings"@);
    let d2 = base.push("strings"@).push(crate::fmt::hex4_chars(g.lang));
    let d3 = base.push("functions"@);
    assert forall|i: int| 1 <= i < h.len() - 6 implies (#[trigger] h[i]) is WriteFile by {
        if g.bcd_device is Some {
            if g.bcd_usb is Some {
            } else {
            }
        } else {
            if g.bcd_usb is Some {
            } else {
            }
        }
    }
    assert(h[0] == (FsOpShape::CreateDir { path: base }));
    assert(h[h.len() - 6] == (FsOpShape::CreateDir { path: d1 }));
    assert(h[h.len() - 5] == (FsOpShape::CreateDir { path: d2 }));
    assert(forall|i: int| h.len() - 4 <= i < h.len() - 1 ==> (#[trigger] h[i]) is WriteFile);
    assert(h[h.len() - 1] == (FsOpShape::CreateDir { path: d3 }));
    lemma_paths_head_shape(h, base, d1, d2, d3);
}

/// Path accounting for one function's plan: its directory alone.
proof fn lemma_paths_fn_ops(p: Seq<Seq<char>>, f: FunctionShape)
    ensures
        created_paths(fn_ops(p, f)) == seq![p.push(key_dir_name(f.key()))],
        removed_paths(fn_ops(p, f)) == Seq::<Seq<Seq<char>>>::empty(),
{
    let dir = p.push(key_dir_name(f.key()));
    let s0 = seq![FsOpShape::CreateDir { path: dir }];
    let w = Seq::new(
        f.attrs.len(),
        |i: int| FsOpShape::WriteFile { path: dir.push(f.attrs[i].0), contents: f.attrs[i].1 },
    );
    lemma_paths_one(FsOpShape::CreateDir { path: dir });
    assert(forall|k: int| 0 <= k < w.len() ==> (#[trigger] w[k]) is WriteFile);
    lemma_paths_writes(w);
    lemma_paths_concat(s0, w);
    assert(created_paths(fn_ops(p, f)) =~= seq![dir]);
    assert(removed_paths(fn_ops(p, f)) =~= Seq::<Seq<Seq<char>>>::empty());
}

/// Path accounting for a function list's plan: one directory per
/// function, in declaration order.
proof fn lemma_paths_functions_ops(fp: Seq<Seq<char>>, fs: Seq<FunctionShape>)
    ensures
        created_paths(functions_ops(fp, fs)) == fn_dirs(fp, fs),
        removed_paths(functions_ops(fp, fs)) == Seq::<Seq<Seq<char>>>::empty(),
    decreases fs.len(),
{
    if fs.len() == 0 {
        assert(created_paths(functions_ops(fp, fs)) =~= fn_dirs(fp, fs));
    } else {
        lemma_paths_functions_ops(fp, fs.drop_last());
        lemma_paths_fn_ops(fp, fs.last());
        lemma_paths_concat(functions_ops(fp, fs.drop_last()), fn_ops(fp, fs.last()));
        assert(created_paths(functions_ops(fp, fs)) =~= fn_dirs(fp, fs));
        assert(removed_paths(functions_ops(fp, fs)) =~= Seq::<Seq<Seq<char>>>::empty());
    }
}

/// Path accounting for one configuration's plan: its three directory
/// levels, then its symlinks, in creation order.
proof fn lemma_paths_cfg_ops(
    cp: Seq<Seq<char>>,
    fp: Seq<Seq<char>>,
    lang: Seq<char>,
    c: crate::config::ConfigShape,
)
    ensures
        ({
            let dir = cp.push(cfg_dir_name(c));
            &&& created_paths(cfg_ops(cp, fp, lang, c)) == seq![
                dir,
                dir.push("strings"@),
                dir.push("strings"@).push(lang),
            ] + Seq::new(c.functions.len(), |i: int| dir.push(key_dir_name(c.functions[i])))
            &&& removed_paths(cfg_ops(cp, fp, lang, c)) == Seq::<Seq<Seq<char>>>::empty()
        }),
{
    let dir = cp.push(cfg_dir_name(c));
    let h = cfg_head_ops(cp, lang, c);
    let links = cfg_link_ops(cp, fp, c);
    let n = h.len() as int;
    let s0 = seq![h[0]];
    let s1 = seq![h[1]];
    let s2 = seq![h[2]];
    let w = h.subrange(3, n);
    assert(h[0] == (FsOpShape::CreateDir { path: dir }));
    assert(h[1] == (FsOpShape::CreateDir { path: dir.push("strings"@) }));
    assert(h[2] == (FsOpShape::CreateDir { path: dir.push("strings"@).push(lang) }));
    assert forall|k: int| 0 <= k < w.len() implies (#[trigger] w[k]) is WriteFile by {
        if c.max_power is Some {
        } else {
        }
    }
    assert(h =~= s0 + s1 + s2 + w);
    lemma_paths_one(h[0]);
    lemma_paths_one(h[1]);
    lemma_paths_one(h[2]);
    lemma_paths_writes(w);
    lemma_paths_concat(s0, s1);
    lemma_paths_concat(s0 + s1, s2);
    lemma_paths_concat(s0 + s1 + s2, w);
    assert(created_paths(h) =~= seq![dir, dir.push("strings"@), dir.push("strings"@).push(lang)]);
    assert(removed_paths(h) =~= Seq::<Seq<Seq<char>>>::empty());

    assert(forall|k: int| 0 <= k < links.len() ==> (#[trigger] links[k]) is CreateSymlink);
    lemma_paths_links(links);
    lemma_paths_concat(h, links);
    assert(created_paths(cfg_ops(cp, fp, lang, c)) =~= seq![
        dir,
        dir.push("strings"@),
        dir.push("strings"@).push(lang),
    ] + Seq::new(c.functions.len(), |i: int| dir.push(key_dir_name(c.functions[i]))));
    assert(removed_paths(cfg_ops(cp, fp, lang, c)) =~= Seq::<Seq<Seq<char>>>::empty());
}

/// One configuration's teardown removes exactly what its plan created,
/// in reverse order.
proof fn lemma_cfg_reverse(
    cp: Seq<Seq<char>>,
    fp: Seq<Seq<char>>,
    lang: Seq<char>,
    c: crate::config::ConfigShape,
)
    ensures
        removed_paths(crate::config::cfg_remove_ops(cp, lang, c)) == created_paths(
            cfg_ops(cp, fp, lang, c),
        ).reverse(),
        created_paths(crate::config::cfg_remove_ops(cp, lang, c)) == Seq::<Seq<Seq<char>>>::empty(),
{
    let rm = crate::config::cfg_remove_ops(cp, lang, c);
    lemma_paths_cfg_ops(cp, fp, lang, c);
    assert(forall|k: int|
        0 <= k < rm.len() ==> ((#[trigger] rm[k]) is RemoveLink || rm[k] is RemoveDir));
    lemma_paths_removes(rm);
    assert(removed_paths(rm) =~= created_paths(cfg_ops(cp, fp, lang, c)).reverse());
    assert(created_paths(rm) =~= Seq::<Seq<Seq<char>>>::empty());
}

/// A configuration list's teardown removes exactly what the list's plan
/// created, in reverse order.
proof fn lemma_configs_reverse(
    cp: Seq<Seq<char>>,
    fp: Seq<Seq<char>>,
    lang: Seq<char>,
    cs: Seq<crate::config::ConfigShape>,
)
    ensures
        removed_paths(crate::gadget::configs_remove_ops(cp, lang, cs)) == created_paths(
            configs_ops(cp, fp, lang, cs),
        ).reverse(),
        created_paths(crate::gadget::configs_remove_ops(cp, lang, cs)) == Seq::<
            Seq<Seq<char>>,
        >::empty(),
    decreases cs.len(),
{
    if cs.len() == 0 {
        assert(removed_paths(crate::gadget::configs_remove_ops(cp, lang, cs)) =~= created_paths(
            configs_ops(cp, fp, lang, cs),
        ).reverse());
    } else {
        lemma_configs_reverse(cp, fp, lang, cs.drop_last());
        lemma_cfg_reverse(cp, fp, lang, cs.last());
        lemma_paths_concat(
            crate::config::cfg_remove_ops(cp, lang, cs.last()),
            crate::gadget::configs_remove_ops(cp, lang, cs.drop_last()),
        );
        lemma_paths_concat(
            configs_ops(cp, fp, lang, cs.drop_last()),
            cfg_ops(cp, fp, lang, cs.last()),
        );
        lemma_reverse_concat(
            created_paths(configs_ops(cp, fp, lang, cs.drop_last())),
            created_paths(cfg_ops(cp, fp, lang, cs.last())),
        );
        assert(created_paths(crate::gadget::configs_remove_ops(cp, lang, cs)) =~= Seq::<
            Seq<Seq<char>>,
        >::empty());
    }
}

/// A disable plan removes exactly the paths an enable plan created, in
/// exact reverse creation order: symlinks and children before parents,
/// the gadget root last.
pub proof fn disable_reverses_enable(g: GadgetShape, udc: Seq<char>)
    ensures
        removed_paths(disable_ops(g)) == created_paths(enable_ops(g, udc)).reverse(),
{
    let base = seq![g.name];
    let fp = base.push("functions"@);
    let cp = base.push("configs"@);
    let lang = crate::fmt::hex4_chars(g.lang);
    let head = gadget_head_ops(base, g);
    let fo = functions_ops(fp, g.functions);
    let cdop = seq![FsOpShape::CreateDir { path: cp }];
    let co = configs_ops(cp, fp, lang, g.configs);
    let udcop = seq![
        FsOpShape::WriteFile { path: seq![g.name, "UDC"@], contents: vstd::utf8::encode_utf8(udc) },
    ];

    // The created paths of the enable plan, chunk by chunk.
    lemma_paths_gadget_head(base, g);
    lemma_paths_functions_ops(fp, g.functions);
    lemma_paths_one(FsOpShape::CreateDir { path: cp });
    lemma_paths_one(udcop[0]);
    assert(udcop =~= seq![udcop[0]]);
    lemma_paths_concat(head, fo);
    lemma_paths_concat(head + fo, cdop);
    lemma_paths_concat(head + fo + cdop, co);
    lemma_paths_concat(head + fo + cdop + co, udcop);
    assert(enable_ops(g, udc) =~= head + fo + cdop + co + udcop);
    let c1 = seq![
        base,
        base.push("strings"@),
        base.push("strings"@).push(lang),
        base.push("functions"@),
    ];
    let c2 = fn_dirs(fp, g.functions);
    let c3 = seq![cp];
    let c4 = created_paths(co);
    assert(created_paths(enable_ops(g, udc)) == c1 + c2 + c3 + c4 + Seq::<Seq<Seq<char>>>::empty());
    assert(c1 + c2 + c3 + c4 + Seq::<Seq<Seq<char>>>::empty() =~= c1 + c2 + c3 + c4);
    lemma_reverse_concat(c1 + c2 + c3, c4);
    lemma_reverse_concat(c1 + c2, c3);
    lemma_reverse_concat(c1, c2);

    // The removed paths of the disable plan, chunk by chunk.
    let crm = crate::gadget::configs_remove_ops(cp, lang, g.configs);
    let frm = crate::gadget::functions_remove_ops(fp, g.functions);
    let cdrm = seq![FsOpShape::RemoveDir { path: cp }];
    let tail = seq![
        FsOpShape::RemoveDir { path: base.push("functions"@) },
        FsOpShape::RemoveDir { path: base.push("strings"@).push(lang) },
        FsOpShape::RemoveDir { path: base.push("strings"@) },
        FsOpShape::RemoveDir { path: base },
    ];
    let udcclr = seq![
        FsOpShape::WriteFile { path: seq![g.name, "UDC"@], contents: Seq::<u8>::empty() },
    ];
    assert(disable_ops(g) =~= udcclr + (crm + cdrm + frm + tail));
    lemma_configs_reverse(cp, fp, lang, g.configs);
    assert(forall|k: int| 0 <= k < frm.len() ==> (#[trigger] frm[k]) is RemoveDir);
    lemma_paths_removes(frm);
    assert(removed_paths(frm) =~= c2.reverse());
    assert(forall|k: int| 0 <= k < tail.len() ==> (#[trigger] tail[k]) is RemoveDir);
    lemma_paths_removes(tail);
    assert(removed_paths(tail) =~= c1.reverse());
    lemma_paths_one(cdrm[0]);
    assert(cdrm =~= seq![cdrm[0]]);
    lemma_paths_one(udcclr[0]);
    assert(udcclr =~= seq![udcclr[0]]);
    lemma_paths_concat(crm, cdrm);
    lemma_paths_concat(crm + cdrm, frm);
    lemma_paths_concat(crm + cdrm + frm, tail);
    lemma_paths_concat(udcclr, crm + cdrm + frm + tail);
    assert(removed_paths(disable_ops(g)) =~= c4.reverse() + c3 + c2.reverse() + c1.reverse());
    assert(c3.reverse() =~= c3);
    assert(created_paths(enable_ops(g, udc)).reverse() =~= c4.reverse() + c3 + c2.reverse()
        + c1.reverse());
}

} // verus!
