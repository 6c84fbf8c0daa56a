//! USB function descriptors.
//!
//! A function is one USB class implementation instance (Ethernet over
//! USB, HID, ...).  Each variant exposes the same capability surface:
//! an instance name, a fixed short type identifier used verbatim in
//! ConfigFS path names, and a complete attribute-name-to-bytes mapping,
//! so the tree writer needs no variant-specific knowledge.

use vstd::prelude::*;
use vstd::string::StrSliceExecFns;
use vstd::string::StringExecFns;
use vstd::utf8::encode_utf8;
use crate::fmt::dec_chars;
use crate::fmt::dec_u64;
use crate::fsop::FsOp;
use crate::fsop::FsOpShape;
use crate::fsop::FsPath;
use crate::fsop::ops_view;
use crate::fsop::push_op;

verus! {

/// The HID device class, from the HID specification.
pub const HID_CLASS: u8 = 3;

/// The HID boot-interface subclass.
pub const HID_SUBCLASS_BOOT: u8 = 1;

/// The HID keyboard boot protocol.
pub const HID_PROTOCOL_KEYBOARD: u8 = 1;

/// The HID mouse boot protocol.
pub const HID_PROTOCOL_MOUSE: u8 = 2;

/// The standard 63-byte HID boot keyboard report descriptor.
pub fn hid_keyboard_report_desc() -> (r: Vec<u8>)
    ensures
        r@.len() == 63,
{
    vec![
        0x05u8, 0x01, 0x09, 0x06, 0xA1, 0x01, 0x05, 0x07, 0x19, 0xE0, 0x29, 0xE7, 0x15, 0x00,
        0x25, 0x01, 0x75, 0x01, 0x95, 0x08, 0x81, 0x02, 0x95, 0x01, 0x75, 0x08, 0x81, 0x03,
        0x95, 0x05, 0x75, 0x01, 0x05, 0x08, 0x19, 0x01, 0x29, 0x05, 0x91, 0x02, 0x95, 0x01,
        0x75, 0x03, 0x91, 0x03, 0x95, 0x06, 0x75, 0x08, 0x15, 0x00, 0x25, 0x65, 0x05, 0x07,
        0x19, 0x00, 0x29, 0x65, 0x81, 0x00, 0xC0,
    ]
}

/// Ethernet-over-USB (CDC ECM) function: device and host MAC addresses
/// in colon-hex form.
pub struct ECMFunction {
    pub instance_name: String,
    pub dev_addr: String,
    pub host_addr: String,
}

/// HID function: protocol, subclass, report length and the raw report
/// descriptor bytes.
pub struct HIDFunction {
    pub instance_name: String,
    pub protocol: u8,
    pub subclass: u8,
    pub report_length: u32,
    pub report_desc: Vec<u8>,
}

/// RNDIS (Ethernet-over-USB, Microsoft flavour) function.
pub struct RNDISFunction {
    pub instance_name: String,
    pub dev_addr: String,
    pub host_addr: String,
}

/// One USB function instance, a closed set of variants.
pub enum UsbGadgetFunction {
    Ecm(ECMFunction),
    Hid(HIDFunction),
    Rndis(RNDISFunction),
}

/// The identity of a function instance within a gadget: the pair of its
/// type identifier and its instance name.  Configurations reference
/// gadget-level functions by this key; they do not own functions.
pub struct FunctionKey {
    pub func_type: String,
    pub instance_name: String,
}

/// The mathematical value of a `FunctionKey`.
pub struct FunctionKeyShape {
    pub func_type: Seq<char>,
    pub instance: Seq<char>,
}

impl View for FunctionKey {
    type V = FunctionKeyShape;

    open spec fn view(&self) -> FunctionKeyShape {
        FunctionKeyShape { func_type: self.func_type@, instance: self.instance_name@ }
    }
}

/// The mathematical value of a function: its identity plus its complete
/// attribute mapping, in the order the attribute files are written.
pub struct FunctionShape {
    pub func_type: Seq<char>,
    pub instance: Seq<char>,
    pub attrs: Seq<(Seq<char>, Seq<u8>)>,
}

impl FunctionShape {
    /// The identity key of this function.
    pub open spec fn key(self) -> FunctionKeyShape {
        FunctionKeyShape { func_type: self.func_type, instance: self.instance }
    }
}

impl View for UsbGadgetFunction {
    type V = FunctionShape;

    open spec fn view(&self) -> FunctionShape {
        match self {
            UsbGadgetFunction::Ecm(f) => FunctionShape {
                func_type: "ecm"@,
                instance: f.instance_name@,
                attrs: seq![
                    ("dev_addr"@, encode_utf8(f.dev_addr@)),
                    ("host_addr"@, encode_utf8(f.host_addr@)),
                ],
            },
            UsbGadgetFunction::Hid(f) => FunctionShape {
                func_type: "hid"@,
                instance: f.instance_name@,
                attrs: seq![
                    ("protocol"@, encode_utf8(dec_chars(f.protocol as nat))),
                    ("subclass"@, encode_utf8(dec_chars(f.subclass as nat))),
                    ("report_length"@, encode_utf8(dec_chars(f.report_length as nat))),
                    ("report_desc"@, f.report_desc@),
                ],
            },
            UsbGadgetFunction::Rndis(f) => FunctionShape {
                func_type: "rndis"@,
                instance: f.instance_name@,
                attrs: seq![
                    ("dev_addr"@, encode_utf8(f.dev_addr@)),
                    ("host_addr"@, encode_utf8(f.host_addr@)),
                ],
            },
        }
    }
}

/// The directory name of a function instance: `{type}.{instance}`.
pub open spec fn key_dir_name(k: FunctionKeyShape) -> Seq<char> {
    k.func_type + seq!['.'] + k.instance
}

/// A string without a dot.
pub open spec fn dot_free(s: Seq<char>) -> bool {
    forall|i: int| 0 <= i < s.len() ==> s[i] != '.'
}

/// What holds of the shape of every function value: the type identifier
/// is non-empty and dot-free (so `{type}.{instance}` parses back
/// uniquely), and the attribute mapping has no repeated name.
pub open spec fn wf_function(f: FunctionShape) -> bool {
    &&& f.func_type.len() > 0
    &&& dot_free(f.func_type)
    &&& forall|j: int, k: int| 0 <= j < k < f.attrs.len() ==> f.attrs[j].0 != f.attrs[k].0
}

/// Every function value is well-formed in the sense of `wf_function`.
pub proof fn lemma_function_wf(f: UsbGadgetFunction)
    ensures
        wf_function(f@),
{
    reveal_strlit("ecm");
    reveal_strlit("hid");
    reveal_strlit("rndis");
    reveal_strlit("dev_addr");
    reveal_strlit("host_addr");
    reveal_strlit("protocol");
    reveal_strlit("subclass");
    reveal_strlit("report_length");
    reveal_strlit("report_desc");
    match f {
        UsbGadgetFunction::Ecm(e) => {
            assert forall|i: int| 0 <= i < f@.func_type.len() implies f@.func_type[i]
                != '.' by {
                if i == 0 {
                } else if i == 1 {
                } else {
                    assert(i == 2);
                }
            }
            assert(f@.attrs[0].0 != f@.attrs[1].0) by {
                assert("dev_addr"@.len() != "host_addr"@.len());
            }
        },
        UsbGadgetFunction::Hid(h) => {
            assert forall|i: int| 0 <= i < f@.func_type.len() implies f@.func_type[i]
                != '.' by {
                if i == 0 {
                } else if i == 1 {
                } else {
                    assert(i == 2);
                }
            }
            assert(f@.attrs[0].0 != f@.attrs[1].0) by {
                assert("protocol"@[0] != "subclass"@[0]);
            }
            assert(f@.attrs[0].0 != f@.attrs[2].0) by {
                assert("protocol"@.len() != "report_length"@.len());
            }
            assert(f@.attrs[0].0 != f@.attrs[3].0) by {
                assert("protocol"@.len() != "report_desc"@.len());
            }
            assert(f@.attrs[1].0 != f@.attrs[2].0) by {
                assert("subclass"@.len() != "report_length"@.len());
            }
            assert(f@.attrs[1].0 != f@.attrs[3].0) by {
                assert("subclass"@.len() != "report_desc"@.len());
            }
            assert(f@.attrs[2].0 != f@.attrs[3].0) by {
                assert("report_length"@.len() != "report_desc"@.len());
            }
        },
        UsbGadgetFunction::Rndis(r) => {
            assert forall|i: int| 0 <= i < f@.func_type.len() implies f@.func_type[i]
                != '.' by {
                if i == 0 {
                } else if i == 1 {
                } else if i == 2 {
                } else if i == 3 {
                } else {
                    assert(i == 4);
                }
            }
            assert(f@.attrs[0].0 != f@.attrs[1].0) by {
                assert("dev_addr"@.len() != "host_addr"@.len());
            }
        },
    }
}

/// The segment layout of a function directory name: the type, one dot,
/// the instance.
pub proof fn lemma_key_dir_name_parts(k: FunctionKeyShape)
    ensures
        key_dir_name(k).len() == k.func_type.len() + 1 + k.instance.len(),
        key_dir_name(k)[k.func_type.len() as int] == '.',
        forall|i: int| 0 <= i < k.func_type.len() ==> key_dir_name(k)[i] == k.func_type[i],
        forall|i: int|
            0 <= i < k.instance.len() ==> key_dir_name(k)[k.func_type.len() + 1 + i]
                == k.instance[i],
{
}

/// For dot-free type identifiers the directory name determines the key.
pub proof fn lemma_key_dir_name_injective(k1: FunctionKeyShape, k2: FunctionKeyShape)
    requires
        dot_free(k1.func_type),
        dot_free(k2.func_type),
        key_dir_name(k1) == key_dir_name(k2),
    ensures
        k1 == k2,
{
    lemma_key_dir_name_parts(k1);
    lemma_key_dir_name_parts(k2);
    let t1 = k1.func_type.len() as int;
    let t2 = k2.func_type.len() as int;
    if t1 < t2 {
        assert(key_dir_name(k2)[t1] == k2.func_type[t1]);
        assert(key_dir_name(k1)[t1] == '.');
        assert(false);
    }
    if t2 < t1 {
        assert(key_dir_name(k1)[t2] == k1.func_type[t2]);
        assert(key_dir_name(k2)[t2] == '.');
        assert(false);
    }
    assert(k1.func_type =~= k2.func_type);
    assert(k1.instance =~= k2.instance) by {
        assert forall|i: int| 0 <= i < k1.instance.len() implies k1.instance[i]
            == k2.instance[i] by {
            assert(key_dir_name(k1)[t1 + 1 + i] == k1.instance[i]);
            assert(key_dir_name(k2)[t1 + 1 + i] == k2.instance[i]);
        }
    }
}

/// The operations that materialize one function under `functions_path`:
/// its directory, then one attribute file per attribute, in declaration
/// order, each holding exactly the declared bytes.
pub open spec fn fn_ops(functions_path: Seq<Seq<char>>, f: FunctionShape) -> Seq<FsOpShape> {
    let dir = functions_path.push(key_dir_name(f.key()));
    seq![FsOpShape::CreateDir { path: dir }] + Seq::new(
        f.attrs.len(),
        |i: int| FsOpShape::WriteFile { path: dir.push(f.attrs[i].0), contents: f.attrs[i].1 },
    )
}

impl HIDFunction {
    /// Builds a HID function from its attribute values.
    pub fn new(
        instance_name: &str,
        protocol: u8,
        subclass: u8,
        report_length: u32,
        report_desc: &[u8],
    ) -> (r: HIDFunction)
        ensures
            r.instance_name@ == instance_name@,
            r.protocol == protocol,
            r.subclass == subclass,
            r.report_length == report_length,
            r.report_desc@ == report_desc@,
    {
        HIDFunction {
            instance_name: instance_name.to_owned(),
            protocol,
            subclass,
            report_length,
            report_desc: vstd::slice::slice_to_vec(report_desc),
        }
    }
}

impl RNDISFunction {
    /// Builds an RNDIS function from its two MAC address strings.
    pub fn new(instance_name: &str, dev_addr: &str, host_addr: &str) -> (r: RNDISFunction)
        ensures
            r.instance_name@ == instance_name@,
            r.dev_addr@ == dev_addr@,
            r.host_addr@ == host_addr@,
    {
        RNDISFunction {
            instance_name: instance_name.to_owned(),
            dev_addr: dev_addr.to_owned(),
            host_addr: host_addr.to_owned(),
        }
    }
}

impl UsbGadgetFunction {
    /// The instance name, the second half of the identity key.
    pub fn instance_name(&self) -> (r: &str)
        ensures
            r@ == self@.instance,
    {
        match self {
            UsbGadgetFunction::Ecm(f) => f.instance_name.as_str(),
            UsbGadgetFunction::Hid(f) => f.instance_name.as_str(),
            UsbGadgetFunction::Rndis(f) => f.instance_name.as_str(),
        }
    }

    /// The fixed type identifier, used verbatim in path names.
    pub fn function_type(&self) -> (r: &str)
        ensures
            r@ == self@.func_type,
    {
        match self {
            UsbGadgetFunction::Ecm(_) => "ecm",
            UsbGadgetFunction::Hid(_) => "hid",
            UsbGadgetFunction::Rndis(_) => "rndis",
        }
    }

    /// The directory name `{type}.{instance}` of this function.
    pub fn dir_name(&self) -> (r: String)
        ensures
            r@ == key_dir_name(self@.key()),
    {
        proof {
            reveal_strlit(".");
        }
        let mut r = self.function_type().to_owned();
        r.append(".");
        r.append(self.instance_name());
        proof {
            assert(r@ =~= key_dir_name(self@.key()));
        }
        r
    }

    /// Whether this function's identity equals `key`.
    pub fn matches_key(&self, key: &FunctionKey) -> (b: bool)
        ensures
            b == (self@.key() == key@),
    {
        proof {
            reveal_strlit("ecm");
            reveal_strlit("hid");
            reveal_strlit("rndis");
        }
        let type_matches: bool = match self {
            UsbGadgetFunction::Ecm(_) => key.func_type == "ecm".to_owned(),
            UsbGadgetFunction::Hid(_) => key.func_type == "hid".to_owned(),
            UsbGadgetFunction::Rndis(_) => key.func_type == "rndis".to_owned(),
        };
        let b = type_matches && match self {
            UsbGadgetFunction::Ecm(f) => key.instance_name == f.instance_name,
            UsbGadgetFunction::Hid(f) => key.instance_name == f.instance_name,
            UsbGadgetFunction::Rndis(f) => key.instance_name == f.instance_name,
        };
        b
    }

    /// Whether this function and `other` share one identity key.
    pub fn same_key(&self, other: &UsbGadgetFunction) -> (b: bool)
        ensures
            b == (self@.key() == other@.key()),
    {
        proof {
            reveal_strlit("ecm");
            reveal_strlit("hid");
            reveal_strlit("rndis");
            assert("ecm"@ != "hid"@) by {
                assert("ecm"@[0] == 'e' && "hid"@[0] == 'h');
            }
            assert("ecm"@ != "rndis"@) by {
                assert("ecm"@[0] == 'e' && "rndis"@[0] == 'r');
            }
            assert("hid"@ != "rndis"@) by {
                assert("hid"@[0] == 'h' && "rndis"@[0] == 'r');
            }
        }
        match (self, other) {
            (UsbGadgetFunction::Ecm(a), UsbGadgetFunction::Ecm(b)) => {
                a.instance_name == b.instance_name
            },
            (UsbGadgetFunction::Hid(a), UsbGadgetFunction::Hid(b)) => {
                a.instance_name == b.instance_name
            },
            (UsbGadgetFunction::Rndis(a), UsbGadgetFunction::Rndis(b)) => {
                a.instance_name == b.instance_name
            },
            _ => false,
        }
    }

    /// Plans the materialization of this function under `functions_path`:
    /// the function directory, then every attribute as a same-named file
    /// holding exactly the declared bytes (numeric attributes in decimal
    /// ASCII, the HID report descriptor as raw bytes).
    pub fn write_to(&self, functions_path: &FsPath) -> (ops: Vec<FsOp>)
        ensures
            ops_view(ops@) == fn_ops(functions_path@, self@),
    {
        let fname = self.dir_name();
        let dir = functions_path.child(fname.as_str());
        let mut ops: Vec<FsOp> = Vec::new();
        match self {
            UsbGadgetFunction::Ecm(f) => {
                let attr_dev = dir.child("dev_addr");
                let attr_host = dir.child("host_addr");
                push_op(&mut ops, FsOp::CreateDir { path: dir });
                push_op(
                    &mut ops,
                    FsOp::WriteFile {
                        path: attr_dev,
                        contents: f.dev_addr.as_str().as_bytes_vec(),
                    },
                );
                push_op(
                    &mut ops,
                    FsOp::WriteFile {
                        path: attr_host,
                        contents: f.host_addr.as_str().as_bytes_vec(),
                    },
                );
            },
            UsbGadgetFunction::Hid(f) => {
                let attr_protocol = dir.child("protocol");
                let attr_subclass = dir.child("subclass");
                let attr_report_length = dir.child("report_length");
                let attr_report_desc = dir.child("report_desc");
                push_op(&mut ops, FsOp::CreateDir { path: dir });
                push_op(
                    &mut ops,
                    FsOp::WriteFile {
                        path: attr_protocol,
                        contents: dec_u64(f.protocol as u64).as_str().as_bytes_vec(),
                    },
                );
                push_op(
                    &mut ops,
                    FsOp::WriteFile {
                        path: attr_subclass,
                        contents: dec_u64(f.subclass as u64).as_str().as_bytes_vec(),
                    },
                );
                push_op(
                    &mut ops,
                    FsOp::WriteFile {
                        path: attr_report_length,
                        contents: dec_u64(f.report_length as u64).as_str().as_bytes_vec(),
                    },
                );
                push_op(
                    &mut ops,
                    FsOp::WriteFile {
                        path: attr_report_desc,
                        contents: vstd::slice::slice_to_vec(f.report_desc.as_slice()),
                    },
                );
            },
            UsbGadgetFunction::Rndis(f) => {
                let attr_dev = dir.child("dev_addr");
                let attr_host = dir.child("host_addr");
                push_op(&mut ops, FsOp::CreateDir { path: dir });
                push_op(
                    &mut ops,
                    FsOp::WriteFile {
                        path: attr_dev,
                        contents: f.dev_addr.as_str().as_bytes_vec(),
                    },
                );
                push_op(
                    &mut ops,
                    FsOp::WriteFile {
                        path: attr_host,
                        contents: f.host_addr.as_str().as_bytes_vec(),
                    },
                );
            },
        }
        proof {
            assert(ops_view(ops@) =~= fn_ops(functions_path@, self@));
        }
        ops
    }
}

} // verus!
