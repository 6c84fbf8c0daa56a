//! The top-level gadget descriptor and its tree plan.
//!
//! `UsbGadget::write_to` turns the descriptor into the ordered operation
//! list that materializes the whole ConfigFS tree: identity attributes,
//! string table, then every function, then every configuration.
//! Functions come strictly before configurations because the kernel
//! validates each configuration symlink against an existing function
//! directory at link-creation time.

use vstd::prelude::*;
use vstd::string::StrSliceExecFns;
use vstd::utf8::encode_utf8;
use crate::fmt::hex4;
use crate::fmt::hex4_chars;
use crate::fsop::FsOp;
use crate::fsop::FsOpShape;
use crate::fsop::FsPath;
use crate::fsop::append_ops;
use crate::fsop::ops_view;
use crate::fsop::push_op;
use crate::function::FunctionKeyShape;
use crate::function::FunctionShape;
use crate::function::UsbGadgetFunction;
use crate::function::fn_ops;
use crate::function::key_dir_name;
use crate::config::ConfigShape;
use crate::config::UsbGadgetConfig;
use crate::config::cfg_ops;
use crate::config::cfg_remove_ops;
use crate::errors::StateError;

verus! {

/// USB language identifier for English (United States).
pub const LANGID_EN_US: u16 = 0x0409;

/// A whole gadget: identity, strings, owned functions, configurations.
pub struct UsbGadget {
    pub name: String,
    pub vendor_id: u16,
    pub product_id: u16,
    pub lang: u16,
    pub product: String,
    pub manufacturer: String,
    pub serial_number: String,
    pub bcd_usb: Option<u16>,
    pub bcd_device: Option<u16>,
    pub device_class: Option<u8>,
    pub device_subclass: Option<u8>,
    pub device_protocol: Option<u8>,
    pub functions: Vec<UsbGadgetFunction>,
    pub configs: Vec<UsbGadgetConfig>,
}

/// The mathematical value of a gadget.
pub struct GadgetShape {
    pub name: Seq<char>,
    pub vendor_id: u16,
    pub product_id: u16,
    pub lang: u16,
    pub product: Seq<char>,
    pub manufacturer: Seq<char>,
    pub serial_number: Seq<char>,
    pub bcd_usb: Option<u16>,
    pub bcd_device: Option<u16>,
    pub device_class: Option<u8>,
    pub device_subclass: Option<u8>,
    pub device_protocol: Option<u8>,
    pub functions: Seq<FunctionShape>,
    pub configs: Seq<ConfigShape>,
}

impl DeepView for UsbGadgetFunction {
    type V = FunctionShape;

    open spec fn deep_view(&self) -> FunctionShape {
        self@
    }
}

impl View for UsbGadget {
    type V = GadgetShape;

    open spec fn view(&self) -> GadgetShape {
        GadgetShape {
            name: self.name@,
            vendor_id: self.vendor_id,
            product_id: self.product_id,
            lang: self.lang,
            product: self.product@,
            manufacturer: self.manufacturer@,
            serial_number: self.serial_number@,
            bcd_usb: self.bcd_usb,
            bcd_device: self.bcd_device,
            device_class: self.device_class,
            device_subclass: self.device_subclass,
            device_protocol: self.device_protocol,
            functions: self.functions.deep_view(),
            configs: self.configs.deep_view(),
        }
    }
}

/// A string usable as one path segment: non-empty, without `/`, and
/// neither of the two special directory names.
pub open spec fn valid_segment(s: Seq<char>) -> bool {
    &&& s.len() > 0
    &&& forall|i: int| 0 <= i < s.len() ==> s[i] != '/'
    &&& !(s.len() == 1 && s[0] == '.')
    &&& !(s.len() == 2 && s[0] == '.' && s[1] == '.')
}

/// Decides `valid_segment` for a string.
pub fn is_valid_segment(s: &str) -> (b: bool)
    ensures
        b == valid_segment(s@),
{
    let n = s.unicode_len();
    if n == 0 {
        return false;
    }
    let mut i: usize = 0;
    while i < n
        invariant
            i <= n,
            n == s@.len(),
            forall|j: int| 0 <= j < i ==> s@[j] != '/',
        decreases n - i,
    {
        if s.get_char(i) == '/' {
            return false;
        }
        i += 1;
    }
    if n == 1 && s.get_char(0) == '.' {
        return false;
    }
    if n == 2 && s.get_char(0) == '.' && s.get_char(1) == '.' {
        return false;
    }
    true
}

/// Whether some function in `fs` carries the identity key `k`.
pub open spec fn resolves(fs: Seq<FunctionShape>, k: FunctionKeyShape) -> bool {
    exists|i: int| 0 <= i < fs.len() && fs[i].key() == k
}

impl GadgetShape {
    /// Every name that becomes a path segment is usable as one.
    pub open spec fn names_valid(self) -> bool {
        &&& valid_segment(self.name)
        &&& forall|i: int|
            0 <= i < self.functions.len() ==> valid_segment(#[trigger] self.functions[i].instance)
        &&& forall|i: int|
            0 <= i < self.configs.len() ==> valid_segment(#[trigger] self.configs[i].name)
    }

    /// No two functions share one identity key.
    pub open spec fn keys_unique(self) -> bool {
        forall|i: int, j: int|
            0 <= i < j < self.functions.len() ==> self.functions[i].key() != self.functions[
                j
            ].key()
    }

    /// Every function reference of every configuration names a function
    /// of this gadget.
    pub open spec fn refs_resolve(self) -> bool {
        forall|ci: int, fi: int|
            0 <= ci < self.configs.len() && 0 <= fi < self.configs[ci].functions.len()
                ==> resolves(self.functions, #[trigger] self.configs[ci].functions[fi])
    }

    /// The descriptor invariant checked before any filesystem mutation.
    pub open spec fn valid(self) -> bool {
        self.names_valid() && self.keys_unique() && self.refs_resolve()
    }
}

/// The operations of a gadget's plan that precede its functions: the
/// gadget directory, the hex identity attributes, and the string table.
pub open spec fn gadget_head_ops(base: Seq<Seq<char>>, g: GadgetShape) -> Seq<FsOpShape> {
    seq![
        FsOpShape::CreateDir { path: base },
        FsOpShape::WriteFile {
            path: base.push("idVendor"@),
            contents: encode_utf8(hex4_chars(g.vendor_id)),
        },
        FsOpShape::WriteFile {
            path: base.push("idProduct"@),
            contents: encode_utf8(hex4_chars(g.product_id)),
        },
    ] + (match g.bcd_device {
        Option::Some(v) => seq![
            FsOpShape::WriteFile {
                path: base.push("bcdDevice"@),
                contents: encode_utf8(hex4_chars(v)),
            },
        ],
        Option::None => Seq::<FsOpShape>::empty(),
    }) + (match g.bcd_usb {
        Option::Some(v) => seq![
            FsOpShape::WriteFile {
                path: base.push("bcdUSB"@),
                contents: encode_utf8(hex4_chars(v)),
            },
        ],
        Option::None => Seq::<FsOpShape>::empty(),
    }) + seq![
        FsOpShape::CreateDir { path: base.push("strings"@) },
        FsOpShape::CreateDir { path: base.push("strings"@).push(hex4_chars(g.lang)) },
        FsOpShape::WriteFile {
            path: base.push("strings"@).push(hex4_chars(g.lang)).push("serialnumber"@),
            contents: encode_utf8(g.serial_number),
        },
        FsOpShape::WriteFile {
            path: base.push("strings"@).push(hex4_chars(g.lang)).push("manufacturer"@),
            contents: encode_utf8(g.manufacturer),
        },
        FsOpShape::WriteFile {
            path: base.push("strings"@).push(hex4_chars(g.lang)).push("product"@),
            contents: encode_utf8(g.product),
        },
        FsOpShape::CreateDir { path: base.push("functions"@) },
    ]
}

/// The plans of a list of functions, concatenated in declaration order.
pub open spec fn functions_ops(
    functions_path: Seq<Seq<char>>,
    fs: Seq<FunctionShape>,
) -> Seq<FsOpShape>
    decreases fs.len(),
{
    if fs.len() == 0 {
        Seq::<FsOpShape>::empty()
    } else {
        functions_ops(functions_path, fs.drop_last()) + fn_ops(functions_path, fs.last())
    }
}

/// The plans of a list of configurations, concatenated in declaration
/// order.
pub open spec fn configs_ops(
    configs_path: Seq<Seq<char>>,
    functions_path: Seq<Seq<char>>,
    lang: Seq<char>,
    cs: Seq<ConfigShape>,
) -> Seq<FsOpShape>
    decreases cs.len(),
{
    if cs.len() == 0 {
        Seq::<FsOpShape>::empty()
    } else {
        configs_ops(configs_path, functions_path, lang, cs.drop_last()) + cfg_ops(
            configs_path,
            functions_path,
            lang,
            cs.last(),
        )
    }
}

/// The removals of a list of functions, in reverse declaration order:
/// one directory removal per function (its attribute files go with it).
pub open spec fn functions_remove_ops(
    functions_path: Seq<Seq<char>>,
    fs: Seq<FunctionShape>,
) -> Seq<FsOpShape> {
    Seq::new(
        fs.len(),
        |i: int| FsOpShape::RemoveDir {
            path: functions_path.push(key_dir_name(fs[fs.len() - 1 - i].key())),
        },
    )
}

/// The teardowns of a list of configurations, in reverse declaration
/// order.
pub open spec fn configs_remove_ops(
    configs_path: Seq<Seq<char>>,
    lang: Seq<char>,
    cs: Seq<ConfigShape>,
) -> Seq<FsOpShape>
    decreases cs.len(),
{
    if cs.len() == 0 {
        Seq::<FsOpShape>::empty()
    } else {
        cfg_remove_ops(configs_path, lang, cs.last()) + configs_remove_ops(
            configs_path,
            lang,
            cs.drop_last(),
        )
    }
}

/// Peels the teardown of the first configuration off the end of the
/// list's teardown plan.
proof fn lemma_configs_remove_first(configs_path: Seq<Seq<char>>, lang: Seq<char>, cs: Seq<
    ConfigShape,
>)
    requires
        cs.len() > 0,
    ensures
        configs_remove_ops(configs_path, lang, cs) == configs_remove_ops(
            configs_path,
            lang,
            cs.drop_first(),
        ) + cfg_remove_ops(configs_path, lang, cs.first()),
    decreases cs.len(),
{
    if cs.len() == 1 {
        assert(cs.drop_last() =~= Seq::<ConfigShape>::empty());
        assert(cs.drop_first() =~= Seq::<ConfigShape>::empty());
        assert(cs.last() == cs.first());
        assert(configs_remove_ops(configs_path, lang, cs) =~= configs_remove_ops(
            configs_path,
            lang,
            cs.drop_first(),
        ) + cfg_remove_ops(configs_path, lang, cs.first()));
    } else {
        lemma_configs_remove_first(configs_path, lang, cs.drop_last());
        assert(cs.drop_last().drop_first() =~= cs.drop_first().drop_last());
        assert(cs.drop_last().first() == cs.first());
        assert(cs.drop_first().last() == cs.last());
        assert(configs_remove_ops(configs_path, lang, cs) =~= configs_remove_ops(
            configs_path,
            lang,
            cs.drop_first(),
        ) + cfg_remove_ops(configs_path, lang, cs.first()));
    }
}

/// The teardown plan of a gadget rooted at `base`, the exact reverse of
/// its tree plan: every configuration (in reverse order), the `configs`
/// directory, every function (in reverse order), the `functions`
/// directory, the string table, and the gadget root last.
pub open spec fn gadget_remove_ops(base: Seq<Seq<char>>, g: GadgetShape) -> Seq<FsOpShape> {
    configs_remove_ops(base.push("configs"@), hex4_chars(g.lang), g.configs) + seq![
        FsOpShape::RemoveDir { path: base.push("configs"@) },
    ] + functions_remove_ops(base.push("functions"@), g.functions) + seq![
        FsOpShape::RemoveDir { path: base.push("functions"@) },
        FsOpShape::RemoveDir { path: base.push("strings"@).push(hex4_chars(g.lang)) },
        FsOpShape::RemoveDir { path: base.push("strings"@) },
        FsOpShape::RemoveDir { path: base },
    ]
}

/// The whole tree plan of a gadget rooted at `base`: head, then every
/// function, then the `configs` directory and every configuration.
pub open spec fn gadget_ops(base: Seq<Seq<char>>, g: GadgetShape) -> Seq<FsOpShape> {
    gadget_head_ops(base, g) + functions_ops(base.push("functions"@), g.functions) + seq![
        FsOpShape::CreateDir { path: base.push("configs"@) },
    ] + configs_ops(
        base.push("configs"@),
        base.push("functions"@),
        hex4_chars(g.lang),
        g.configs,
    )
}

impl UsbGadget {
    /// Builds a gadget with the given identity and no functions or
    /// configurations yet.
    pub fn new(
        name: &str,
        vendor_id: u16,
        product_id: u16,
        lang: u16,
        product: &str,
        manufacturer: &str,
        serial_number: &str,
    ) -> (r: UsbGadget)
        ensures
            r@.name == name@,
            r@.vendor_id == vendor_id,
            r@.product_id == product_id,
            r@.lang == lang,
            r@.product == product@,
            r@.manufacturer == manufacturer@,
            r@.serial_number == serial_number@,
            r@.bcd_usb is None,
            r@.bcd_device is None,
            r@.device_class is None,
            r@.device_subclass is None,
            r@.device_protocol is None,
            r@.functions =~= Seq::<FunctionShape>::empty(),
            r@.configs =~= Seq::<ConfigShape>::empty(),
    {
        UsbGadget {
            name: name.to_owned(),
            vendor_id,
            product_id,
            lang,
            product: product.to_owned(),
            manufacturer: manufacturer.to_owned(),
            serial_number: serial_number.to_owned(),
            bcd_usb: Option::None,
            bcd_device: Option::None,
            device_class: Option::None,
            device_subclass: Option::None,
            device_protocol: Option::None,
            functions: Vec::new(),
            configs: Vec::new(),
        }
    }

    /// Checks the descriptor invariant: every name is usable as a path
    /// segment, no two functions share an identity key, and every
    /// function reference of every configuration resolves.  Runs before
    /// any filesystem mutation is planned.
    #[verifier::loop_isolation(false)]
    pub fn validate(&self) -> (r: Result<(), StateError>)
        ensures
            r is Ok <==> self@.valid(),
            (r is Err && r->Err_0 is InvalidName) <==> !self@.names_valid(),
            (r is Err && r->Err_0 is DuplicateFunction) <==> (self@.names_valid()
                && !self@.keys_unique()),
            (r is Err && r->Err_0 is DanglingFunctionReference) <==> (self@.names_valid()
                && self@.keys_unique() && !self@.refs_resolve()),
            r is Err && r->Err_0 is InvalidName ==> !valid_segment(
                (r->Err_0)->InvalidName_name@,
            ),
            r is Err && r->Err_0 is DuplicateFunction ==> exists|i: int, j: int|
                0 <= i < j < self@.functions.len() && self@.functions[i].key()
                    == self@.functions[j].key() && self@.functions[i].key()
                    == (FunctionKeyShape {
                    func_type: (r->Err_0)->DuplicateFunction_func_type@,
                    instance: (r->Err_0)->DuplicateFunction_instance_name@,
                }),
            r is Err && r->Err_0 is DanglingFunctionReference ==> {
                let k = FunctionKeyShape {
                    func_type: (r->Err_0)->DanglingFunctionReference_func_type@,
                    instance: (r->Err_0)->DanglingFunctionReference_instance_name@,
                };
                &&& !resolves(self@.functions, k)
                &&& exists|ci: int, fi: int|
                    0 <= ci < self@.configs.len() && 0 <= fi < self@.configs[ci].functions.len()
                        && self@.configs[ci].functions[fi] == k
            },
    {
        if !is_valid_segment(self.name.as_str()) {
            return Result::Err(StateError::InvalidName { name: self.name.clone() });
        }
        let nf = self.functions.len();
        let mut i: usize = 0;
        while i < nf
            invariant
                i <= nf,
                forall|k: int| 0 <= k < i ==> valid_segment(#[trigger] self@.functions[k].instance),
            decreases nf - i,
        {
            if !is_valid_segment(self.functions[i].instance_name()) {
                proof {
                    assert(!valid_segment(self@.functions[i as int].instance));
                }
                return Result::Err(
                    StateError::InvalidName { name: self.functions[i].instance_name().to_owned() },
                );
            }
            i += 1;
        }
        let nc = self.configs.len();
        let mut ci: usize = 0;
        while ci < nc
            invariant
                ci <= nc,
                forall|k: int| 0 <= k < ci ==> valid_segment(#[trigger] self@.configs[k].name),
            decreases nc - ci,
        {
            if !is_valid_segment(self.configs[ci].name.as_str()) {
                proof {
                    assert(!valid_segment(self@.configs[ci as int].name));
                }
                return Result::Err(StateError::InvalidName { name: self.configs[ci].name.clone() });
            }
            ci += 1;
        }
        assert(self@.names_valid());

        let mut i: usize = 0;
        while i < nf
            invariant
                i <= nf,
                forall|a: int, b: int|
                    0 <= a < b < nf && a < i ==> self@.functions[a].key() != self@.functions[
                        b
                    ].key(),
            decreases nf - i,
        {
            let mut j: usize = i + 1;
            while j < nf
                invariant
                    i < j <= nf,
                    forall|b: int|
                        i < b < j ==> self@.functions[i as int].key() != self@.functions[b].key(),
                decreases nf - j,
            {
                if self.functions[i].same_key(&self.functions[j]) {
                    proof {
                        assert(self@.functions[i as int].key() == self@.functions[j as int].key());
                        assert(!self@.keys_unique());
                    }
                    return Result::Err(
                        StateError::DuplicateFunction {
                            func_type: self.functions[i].function_type().to_owned(),
                            instance_name: self.functions[i].instance_name().to_owned(),
                        },
                    );
                }
                j += 1;
            }
            i += 1;
        }
        assert(self@.keys_unique());

        let mut ci: usize = 0;
        while ci < nc
            invariant
                ci <= nc,
                forall|c: int, f: int|
                    0 <= c < ci && 0 <= f < self@.configs[c].functions.len() ==> resolves(
                        self@.functions,
                        #[trigger] self@.configs[c].functions[f],
                    ),
            decreases nc - ci,
        {
            let nk = self.configs[ci].functions.len();
            let mut fi: usize = 0;
            while fi < nk
                invariant
                    fi <= nk,
                    nk == self@.configs[ci as int].functions.len(),
                    forall|f: int|
                        0 <= f < fi ==> resolves(
                            self@.functions,
                            #[trigger] self@.configs[ci as int].functions[f],
                        ),
                decreases nk - fi,
            {
                let key = &self.configs[ci].functions[fi];
                let mut found = false;
                let mut x: usize = 0;
                while x < nf
                    invariant
                        x <= nf,
                        found ==> resolves(self@.functions, key@),
                        !found ==> forall|y: int|
                            0 <= y < x ==> (#[trigger] self@.functions[y].key()) != key@,
                    decreases nf - x,
                {
                    if self.functions[x].matches_key(key) {
                        found = true;
                        proof {
                            assert(self@.functions[x as int].key() == key@);
                        }
                    }
                    x += 1;
                }
                if !found {
                    proof {
                        assert(key@ == self@.configs[ci as int].functions[fi as int]);
                        assert(!resolves(self@.functions, key@)) by {
                            if resolves(self@.functions, key@) {
                                let w = choose|y: int|
                                    0 <= y < self@.functions.len() && self@.functions[y].key()
                                        == key@;
                                assert(self@.functions[w].key() != key@);
                            }
                        }
                        assert(!self@.refs_resolve());
                    }
                    return Result::Err(
                        StateError::DanglingFunctionReference {
                            func_type: key.func_type.clone(),
                            instance_name: key.instance_name.clone(),
                        },
                    );
                }
                fi += 1;
            }
            ci += 1;
        }
        assert(self@.refs_resolve());
        Result::Ok(())
    }

    /// Plans the materialization of the whole gadget tree at
    /// `gadget_path`.
    pub fn write_to(&self, gadget_path: &FsPath) -> (ops: Vec<FsOp>)
        ensures
            ops_view(ops@) == gadget_ops(gadget_path@, self@),
    {
        let ghost head = gadget_head_ops(gadget_path@, self@);
        let lang = hex4(self.lang);
        let strings = gadget_path.child("strings");
        let strings_lang = strings.child(lang.as_str());
        let functions_path = gadget_path.child("functions");
        let configs_path = gadget_path.child("configs");

        let mut ops: Vec<FsOp> = Vec::new();
        push_op(&mut ops, FsOp::CreateDir { path: gadget_path.clone() });
        push_op(
            &mut ops,
            FsOp::WriteFile {
                path: gadget_path.child("idVendor"),
                contents: hex4(self.vendor_id).as_str().as_bytes_vec(),
            },
        );
        push_op(
            &mut ops,
            FsOp::WriteFile {
                path: gadget_path.child("idProduct"),
                contents: hex4(self.product_id).as_str().as_bytes_vec(),
            },
        );
        match self.bcd_device {
            Option::Some(v) => {
                push_op(
                    &mut ops,
                    FsOp::WriteFile {
                        path: gadget_path.child("bcdDevice"),
                        contents: hex4(v).as_str().as_bytes_vec(),
                    },
                );
            },
            Option::None => {},
        }
        match self.bcd_usb {
            Option::Some(v) => {
                push_op(
                    &mut ops,
                    FsOp::WriteFile {
                        path: gadget_path.child("bcdUSB"),
                        contents: hex4(v).as_str().as_bytes_vec(),
                    },
                );
            },
            Option::None => {},
        }
        push_op(&mut ops, FsOp::CreateDir { path: strings });
        push_op(&mut ops, FsOp::CreateDir { path: strings_lang.clone() });
        push_op(
            &mut ops,
            FsOp::WriteFile {
                path: strings_lang.child("serialnumber"),
                contents: self.serial_number.as_str().as_bytes_vec(),
            },
        );
        push_op(
            &mut ops,
            FsOp::WriteFile {
                path: strings_lang.child("manufacturer"),
                contents: self.manufacturer.as_str().as_bytes_vec(),
            },
        );
        push_op(
            &mut ops,
            FsOp::WriteFile {
                path: strings_lang.child("product"),
                contents: self.product.as_str().as_bytes_vec(),
            },
        );
        push_op(&mut ops, FsOp::CreateDir { path: functions_path.clone() });
        proof {
            assert(ops_view(ops@) =~= head);
        }

        let ghost fops = functions_ops(functions_path@, self@.functions);
        let nf = self.functions.len();
        let mut i: usize = 0;
        while i < nf
            invariant
                i <= nf,
                nf == self.functions.len(),
                self@.functions == self.functions.deep_view(),
                ops_view(ops@) =~= head + functions_ops(
                    functions_path@,
                    self@.functions.take(i as int),
                ),
            decreases nf - i,
        {
            let ghost i0 = i as int;
            let more = self.functions[i].write_to(&functions_path);
            append_ops(&mut ops, more);
            i += 1;
            proof {
                let fseq = self@.functions;
                assert(fseq.take(i0 + 1).drop_last() =~= fseq.take(i0));
                assert(fseq.take(i0 + 1).last() == fseq[i0]);
                assert(functions_ops(functions_path@, fseq.take(i0 + 1)) == functions_ops(
                    functions_path@,
                    fseq.take(i0),
                ) + fn_ops(functions_path@, fseq[i0]));
                assert(ops_view(ops@) =~= head + functions_ops(
                    functions_path@,
                    fseq.take(i0 + 1),
                ));
            }
        }
        proof {
            assert(self@.functions.take(nf as int) =~= self@.functions);
        }

        push_op(&mut ops, FsOp::CreateDir { path: configs_path.clone() });
        let ghost mid = head + functions_ops(functions_path@, self@.functions) + seq![
            FsOpShape::CreateDir { path: gadget_path@.push("configs"@) },
        ];
        proof {
            assert(ops_view(ops@) =~= mid);
        }

        let nc = self.configs.len();
        let mut j: usize = 0;
        while j < nc
            invariant
                j <= nc,
                nc == self.configs.len(),
                self@.configs == self.configs.deep_view(),
                lang@ == hex4_chars(self@.lang),
                configs_path@ == gadget_path@.push("configs"@),
                functions_path@ == gadget_path@.push("functions"@),
                ops_view(ops@) =~= mid + configs_ops(
                    configs_path@,
                    functions_path@,
                    lang@,
                    self@.configs.take(j as int),
                ),
                mid == head + functions_ops(functions_path@, self@.functions) + seq![
                    FsOpShape::CreateDir { path: gadget_path@.push("configs"@) },
                ],
            decreases nc - j,
        {
            let ghost j0 = j as int;
            let more = self.configs[j].write_to(&configs_path, &functions_path, lang.as_str());
            append_ops(&mut ops, more);
            j += 1;
            proof {
                let cseq = self@.configs;
                assert(cseq.take(j0 + 1).drop_last() =~= cseq.take(j0));
                assert(cseq.take(j0 + 1).last() == cseq[j0]);
                assert(configs_ops(configs_path@, functions_path@, lang@, cseq.take(j0 + 1))
                    == configs_ops(configs_path@, functions_path@, lang@, cseq.take(j0)) + cfg_ops(
                    configs_path@,
                    functions_path@,
                    lang@,
                    cseq[j0],
                ));
                assert(ops_view(ops@) =~= mid + configs_ops(
                    configs_path@,
                    functions_path@,
                    lang@,
                    cseq.take(j0 + 1),
                ));
            }
        }
        proof {
            assert(self@.configs.take(nc as int) =~= self@.configs);
            assert(ops_view(ops@) =~= gadget_ops(gadget_path@, self@));
        }
        ops
    }

    /// Plans the teardown of the whole gadget tree at `gadget_path`, in
    /// exact reverse of `write_to`: children before parents, symlinks
    /// before their targets, the gadget root last.
    pub fn remove_from(&self, gadget_path: &FsPath) -> (ops: Vec<FsOp>)
        ensures
            ops_view(ops@) == gadget_remove_ops(gadget_path@, self@),
    {
        let lang = hex4(self.lang);
        let strings = gadget_path.child("strings");
        let strings_lang = strings.child(lang.as_str());
        let functions_path = gadget_path.child("functions");
        let configs_path = gadget_path.child("configs");

        let mut ops: Vec<FsOp> = Vec::new();
        let nc = self.configs.len();
        let mut j: usize = nc;
        while j > 0
            invariant
                j <= nc,
                nc == self.configs.len(),
                self@.configs == self.configs.deep_view(),
                lang@ == hex4_chars(self@.lang),
                configs_path@ == gadget_path@.push("configs"@),
                ops_view(ops@) =~= configs_remove_ops(
                    configs_path@,
                    lang@,
                    self@.configs.skip(j as int),
                ),
            decreases j,
        {
            j -= 1;
            let more = self.configs[j].remove_from(&configs_path, lang.as_str());
            append_ops(&mut ops, more);
            proof {
                let cseq = self@.configs;
                lemma_configs_remove_first(configs_path@, lang@, cseq.skip(j as int));
                assert(cseq.skip(j as int).drop_first() =~= cseq.skip(j + 1));
                assert(cseq.skip(j as int).first() == cseq[j as int]);
                assert(ops_view(ops@) =~= configs_remove_ops(
                    configs_path@,
                    lang@,
                    cseq.skip(j as int),
                ));
            }
        }
        proof {
            assert(self@.configs.skip(0) =~= self@.configs);
        }
        push_op(&mut ops, FsOp::RemoveDir { path: configs_path });

        let ghost mid = configs_remove_ops(
            gadget_path@.push("configs"@),
            hex4_chars(self@.lang),
            self@.configs,
        ) + seq![FsOpShape::RemoveDir { path: gadget_path@.push("configs"@) }];
        proof {
            assert(ops_view(ops@) =~= mid);
        }

        let ghost rm_fns = functions_remove_ops(functions_path@, self@.functions);
        let nf = self.functions.len();
        let mut i: usize = nf;
        while i > 0
            invariant
                i <= nf,
                nf == self.functions.len(),
                self@.functions == self.functions.deep_view(),
                functions_path@ == gadget_path@.push("functions"@),
                ops_view(ops@) =~= mid + rm_fns.take(nf - i),
                rm_fns == functions_remove_ops(functions_path@, self@.functions),
                mid == configs_remove_ops(
                    gadget_path@.push("configs"@),
                    hex4_chars(self@.lang),
                    self@.configs,
                ) + seq![FsOpShape::RemoveDir { path: gadget_path@.push("configs"@) }],
            decreases i,
        {
            i -= 1;
            let fname = self.functions[i].dir_name();
            push_op(&mut ops, FsOp::RemoveDir { path: functions_path.child(fname.as_str()) });
            proof {
                assert(ops_view(ops@) =~= mid + rm_fns.take(nf - i));
            }
        }
        proof {
            assert(rm_fns.take(nf as int) =~= rm_fns);
        }
        push_op(&mut ops, FsOp::RemoveDir { path: functions_path });
        push_op(&mut ops, FsOp::RemoveDir { path: strings_lang });
        push_op(&mut ops, FsOp::RemoveDir { path: strings });
        push_op(&mut ops, FsOp::RemoveDir { path: gadget_path.clone() });
        proof {
            assert(ops_view(ops@) =~= gadget_remove_ops(gadget_path@, self@));
        }
        ops
    }
}

} // verus!
