//! USB configuration descriptors.
//!
//! A configuration groups a subset of the gadget's functions under a
//! numbered directory.  It references functions by identity key; it does
//! not own them.  Its plan is only correct when it runs after every
//! referenced function was materialized, because ConfigFS validates a
//! symlink target when the link is created.

use vstd::prelude::*;
use vstd::string::StrSliceExecFns;
use vstd::string::StringExecFns;
use vstd::utf8::encode_utf8;
use crate::fmt::dec_chars;
use crate::fmt::dec_u64;
use crate::fsop::FsOp;
use crate::fsop::FsOpShape;
use crate::fsop::FsPath;
use crate::fsop::ops_view;
use crate::fsop::push_op;
use crate::function::FunctionKey;
use crate::function::FunctionKeyShape;
use crate::function::key_dir_name;

verus! {

/// One USB configuration: a numbered grouping of function references
/// with a description and an optional power budget (in 2 mA units).
pub struct UsbGadgetConfig {
    pub id: u8,
    pub name: String,
    pub description: String,
    pub functions: Vec<FunctionKey>,
    pub max_power: Option<u16>,
}

/// The mathematical value of a configuration.
pub struct ConfigShape {
    pub id: u8,
    pub name: Seq<char>,
    pub description: Seq<char>,
    pub functions: Seq<FunctionKeyShape>,
    pub max_power: Option<u16>,
}

impl DeepView for FunctionKey {
    type V = FunctionKeyShape;

    open spec fn deep_view(&self) -> FunctionKeyShape {
        self@
    }
}

impl View for UsbGadgetConfig {
    type V = ConfigShape;

    open spec fn view(&self) -> ConfigShape {
        ConfigShape {
            id: self.id,
            name: self.name@,
            description: self.description@,
            functions: self.functions.deep_view(),
            max_power: self.max_power,
        }
    }
}

impl DeepView for UsbGadgetConfig {
    type V = ConfigShape;

    open spec fn deep_view(&self) -> ConfigShape {
        self@
    }
}

/// The directory name of a configuration: `{name}.{id}`, the id in
/// decimal.
pub open spec fn cfg_dir_name(c: ConfigShape) -> Seq<char> {
    c.name + seq!['.'] + dec_chars(c.id as nat)
}

/// The operations of a configuration's plan that precede its symlinks:
/// its directory, its string table holding the description, and the
/// optional `MaxPower` attribute.
pub open spec fn cfg_head_ops(
    configs_path: Seq<Seq<char>>,
    lang: Seq<char>,
    c: ConfigShape,
) -> Seq<FsOpShape> {
    let dir = configs_path.push(cfg_dir_name(c));
    seq![
        FsOpShape::CreateDir { path: dir },
        FsOpShape::CreateDir { path: dir.push("strings"@) },
        FsOpShape::CreateDir { path: dir.push("strings"@).push(lang) },
        FsOpShape::WriteFile {
            path: dir.push("strings"@).push(lang).push("configuration"@),
            contents: encode_utf8(c.description),
        },
    ] + (match c.max_power {
        Option::Some(p) => seq![
            FsOpShape::WriteFile {
                path: dir.push("MaxPower"@),
                contents: encode_utf8(dec_chars(p as nat)),
            },
        ],
        Option::None => Seq::<FsOpShape>::empty(),
    })
}

/// The symlink operations of a configuration's plan: one per referenced
/// function, in declaration order, each link named after the function's
/// directory name and pointing at that directory under `functions_path`.
pub open spec fn cfg_link_ops(
    configs_path: Seq<Seq<char>>,
    functions_path: Seq<Seq<char>>,
    c: ConfigShape,
) -> Seq<FsOpShape> {
    let dir = configs_path.push(cfg_dir_name(c));
    Seq::new(
        c.functions.len(),
        |i: int| FsOpShape::CreateSymlink {
            target: functions_path.push(key_dir_name(c.functions[i])),
            link: dir.push(key_dir_name(c.functions[i])),
        },
    )
}

/// The operations that tear one configuration down, in exact reverse of
/// its creation: the symlinks in reverse declaration order, then the
/// language directory, the `strings` directory, and the configuration
/// directory itself.  Symlinks go first because ConfigFS refuses to
/// remove a directory that still holds links.
pub open spec fn cfg_remove_ops(
    configs_path: Seq<Seq<char>>,
    lang: Seq<char>,
    c: ConfigShape,
) -> Seq<FsOpShape> {
    let dir = configs_path.push(cfg_dir_name(c));
    Seq::new(
        c.functions.len(),
        |i: int| FsOpShape::RemoveLink {
            path: dir.push(key_dir_name(c.functions[c.functions.len() - 1 - i])),
        },
    ) + seq![
        FsOpShape::RemoveDir { path: dir.push("strings"@).push(lang) },
        FsOpShape::RemoveDir { path: dir.push("strings"@) },
        FsOpShape::RemoveDir { path: dir },
    ]
}

/// The operations that materialize one configuration under
/// `configs_path`: its directory, its string table holding the
/// description, the optional `MaxPower` attribute, then one symlink per
/// referenced function, each pointing at that function's directory under
/// `functions_path`.
pub open spec fn cfg_ops(
    configs_path: Seq<Seq<char>>,
    functions_path: Seq<Seq<char>>,
    lang: Seq<char>,
    c: ConfigShape,
) -> Seq<FsOpShape> {
    cfg_head_ops(configs_path, lang, c) + cfg_link_ops(configs_path, functions_path, c)
}

impl FunctionKey {
    /// The directory name `{type}.{instance}` of the referenced function.
    pub fn dir_name(&self) -> (r: String)
        ensures
            r@ == key_dir_name(self@),
    {
        proof {
            reveal_strlit(".");
        }
        let mut r = self.func_type.clone();
        r.append(".");
        r.append(self.instance_name.as_str());
        proof {
            assert(r@ =~= key_dir_name(self@));
        }
        r
    }
}

impl UsbGadgetConfig {
    /// The directory name `{name}.{id}` of this configuration.
    pub fn dir_name(&self) -> (r: String)
        ensures
            r@ == cfg_dir_name(self@),
    {
        proof {
            reveal_strlit(".");
        }
        let mut r = self.name.clone();
        r.append(".");
        let id_str = dec_u64(self.id as u64);
        r.append(id_str.as_str());
        proof {
            assert(r@ =~= cfg_dir_name(self@));
        }
        r
    }

    /// Plans the materialization of this configuration under
    /// `configs_path`, with symlink targets under `functions_path` and
    /// the string table under the language directory named `lang`.
    pub fn write_to(&self, configs_path: &FsPath, functions_path: &FsPath, lang: &str) -> (ops:
        Vec<FsOp>)
        ensures
            ops_view(ops@) == cfg_ops(configs_path@, functions_path@, lang@, self@),
    {
        let cname = self.dir_name();
        let dir = configs_path.child(cname.as_str());
        let strings = dir.child("strings");
        let strings_lang = strings.child(lang);
        let conf_file = strings_lang.child("configuration");

        let ghost head = cfg_head_ops(configs_path@, lang@, self@);

        let mut ops: Vec<FsOp> = Vec::new();
        push_op(&mut ops, FsOp::CreateDir { path: dir.clone() });
        push_op(&mut ops, FsOp::CreateDir { path: strings });
        push_op(&mut ops, FsOp::CreateDir { path: strings_lang });
        push_op(
            &mut ops,
            FsOp::WriteFile {
                path: conf_file,
                contents: self.description.as_str().as_bytes_vec(),
            },
        );
        match self.max_power {
            Option::Some(p) => {
                push_op(
                    &mut ops,
                    FsOp::WriteFile {
                        path: dir.child("MaxPower"),
                        contents: dec_u64(p as u64).as_str().as_bytes_vec(),
                    },
                );
                proof {
                    assert(ops_view(ops@) =~= head);
                }
            },
            Option::None => {
                proof {
                    assert(ops_view(ops@) =~= head);
                }
            },
        }

        let ghost links = cfg_link_ops(configs_path@, functions_path@, self@);
        let n = self.functions.len();
        let mut i: usize = 0;
        while i < n
            invariant
                i <= n,
                n == self.functions.len(),
                ops_view(ops@) =~= head + links.take(i as int),
                links == cfg_link_ops(configs_path@, functions_path@, self@),
                head == cfg_head_ops(configs_path@, lang@, self@),
                dir@ == configs_path@.push(cfg_dir_name(self@)),
            decreases n - i,
        {
            let fname = self.functions[i].dir_name();
            let target = functions_path.child(fname.as_str());
            let link = dir.child(fname.as_str());
            push_op(&mut ops, FsOp::CreateSymlink { target, link });
            i += 1;
            proof {
                assert(ops_view(ops@) =~= head + links.take(i as int));
            }
        }
        proof {
            assert(links.take(n as int) =~= links);
            assert(ops_view(ops@) =~= cfg_ops(configs_path@, functions_path@, lang@, self@));
        }
        ops
    }

    /// Plans the teardown of this configuration, the exact reverse of
    /// `write_to`.
    pub fn remove_from(&self, configs_path: &FsPath, lang: &str) -> (ops: Vec<FsOp>)
        ensures
            ops_view(ops@) == cfg_remove_ops(configs_path@, lang@, self@),
    {
        let cname = self.dir_name();
        let dir = configs_path.child(cname.as_str());
        let strings = dir.child("strings");
        let strings_lang = strings.child(lang);

        let ghost rm_links = Seq::new(
            self@.functions.len(),
            |i: int| FsOpShape::RemoveLink {
                path: configs_path@.push(cfg_dir_name(self@)).push(
                    key_dir_name(self@.functions[self@.functions.len() - 1 - i]),
                ),
            },
        );
        let mut ops: Vec<FsOp> = Vec::new();
        let n = self.functions.len();
        let mut i: usize = n;
        while i > 0
            invariant
                i <= n,
                n == self.functions.len(),
                ops_view(ops@) =~= rm_links.take(n - i),
                rm_links == Seq::new(
                    self@.functions.len(),
                    |k: int| FsOpShape::RemoveLink {
                        path: configs_path@.push(cfg_dir_name(self@)).push(
                            key_dir_name(self@.functions[self@.functions.len() - 1 - k]),
                        ),
                    },
                ),
                dir@ == configs_path@.push(cfg_dir_name(self@)),
            decreases i,
        {
            i -= 1;
            let fname = self.functions[i].dir_name();
            push_op(&mut ops, FsOp::RemoveLink { path: dir.child(fname.as_str()) });
            proof {
                assert(ops_view(ops@) =~= rm_links.take(n - i));
            }
        }
        proof {
            assert(rm_links.take(n as int) =~= rm_links);
        }
        push_op(&mut ops, FsOp::RemoveDir { path: strings_lang });
        push_op(&mut ops, FsOp::RemoveDir { path: strings });
        push_op(&mut ops, FsOp::RemoveDir { path: dir });
        proof {
            assert(ops_view(ops@) =~= cfg_remove_ops(configs_path@, lang@, self@));
        }
        ops
    }
}

} // verus!
