//! The gadget state controller.
//!
//! The controller owns the ConfigFS mount root and the target UDC name
//! and drives the state machine `Unbound` -> (`enable`) -> `Bound` ->
//! (`disable`) -> `Unbound`.  `enable` and `disable` validate and plan:
//! they return the ordered operation list an executor must apply at the
//! mount root.  The executor reports back through `finish_enable` /
//! `finish_disable`, and only a successful report moves the state
//! machine.  The UDC write is the last operation of an enable plan, so
//! the kernel sees the whole tree before it binds; the empty UDC write
//! is the first operation of a disable plan, so nothing structural is
//! removed while the gadget is still bound.

use vstd::prelude::*;
use vstd::string::StrSliceExecFns;
use vstd::string::StringExecFns;
use vstd::utf8::encode_utf8;
use crate::errors::FsFailure;
use crate::errors::StateError;
use crate::fsop::FsOp;
use crate::fsop::FsOpShape;
use crate::fsop::FsPath;
use crate::fsop::ops_view;
use crate::fsop::push_op;
use crate::gadget::GadgetShape;
use crate::gadget::UsbGadget;
use crate::gadget::gadget_ops;
use crate::gadget::gadget_remove_ops;

verus! {

/// The canonical kernel mount point of ConfigFS gadget configuration.
pub open spec fn default_configfs_root() -> Seq<char> {
    "/sys/kernel/config/usb_gadget"@
}

/// The mathematical value of the controller.
pub struct StateShape {
    pub configfs_path: Seq<char>,
    pub udc_name: Seq<char>,
    pub bound: bool,
}

/// The gadget state controller.
pub struct UsbGadgetState {
    configfs_path: String,
    udc_name: String,
    bound: bool,
}

impl View for UsbGadgetState {
    type V = StateShape;

    closed spec fn view(&self) -> StateShape {
        StateShape {
            configfs_path: self.configfs_path@,
            udc_name: self.udc_name@,
            bound: self.bound,
        }
    }
}

/// The plan of a successful `enable`: the whole gadget tree rooted at
/// the gadget's name, then the UDC name written (without a trailing
/// newline) into the gadget's `UDC` attribute.  The UDC write is last:
/// it is what makes the kernel bind and enumerate, and the kernel
/// validates the whole configuration at that moment.
pub open spec fn enable_ops(g: GadgetShape, udc: Seq<char>) -> Seq<FsOpShape> {
    gadget_ops(seq![g.name], g) + seq![
        FsOpShape::WriteFile { path: seq![g.name, "UDC"@], contents: encode_utf8(udc) },
    ]
}

/// The plan of a successful `disable`: an empty write to the gadget's
/// `UDC` attribute to unbind first, then the teardown of the whole tree
/// in exact reverse creation order.
pub open spec fn disable_ops(g: GadgetShape) -> Seq<FsOpShape> {
    seq![
        FsOpShape::WriteFile { path: seq![g.name, "UDC"@], contents: Seq::<u8>::empty() },
    ] + gadget_remove_ops(seq![g.name], g)
}

impl UsbGadgetState {
    /// Builds a controller over the given ConfigFS root (the canonical
    /// kernel mount point when absent) and UDC name (empty when absent;
    /// discovery is the caller's concern).
    pub fn new(configfs_path: Option<String>, udc_name: Option<String>) -> (r: UsbGadgetState)
        ensures
            r@.configfs_path == (match configfs_path {
                Option::Some(p) => p@,
                Option::None => default_configfs_root(),
            }),
            r@.udc_name == (match udc_name {
                Option::Some(u) => u@,
                Option::None => Seq::<char>::empty(),
            }),
            !r@.bound,
    {
        let configfs_path = match configfs_path {
            Option::Some(p) => p,
            Option::None => "/sys/kernel/config/usb_gadget".to_owned(),
        };
        let udc_name = match udc_name {
            Option::Some(u) => u,
            Option::None => String::new(),
        };
        UsbGadgetState { configfs_path, udc_name, bound: false }
    }

    /// Replaces the ConfigFS root.
    pub fn configfs_path(&mut self, configfs_path: String)
        ensures
            final(self)@ == (StateShape { configfs_path: configfs_path@, ..old(self)@ }),
    {
        self.configfs_path = configfs_path;
    }

    /// Replaces the target UDC name.
    pub fn udc_name(&mut self, udc_name: &str)
        ensures
            final(self)@ == (StateShape { udc_name: udc_name@, ..old(self)@ }),
    {
        self.udc_name = udc_name.to_owned();
    }

    /// The ConfigFS root the controller targets.
    pub fn configfs_root(&self) -> (r: &str)
        ensures
            r@ == self@.configfs_path,
    {
        self.configfs_path.as_str()
    }

    /// Whether the controller currently holds a bound gadget.
    pub fn is_bound(&self) -> (b: bool)
        ensures
            b == self@.bound,
    {
        self.bound
    }

    /// Validates `gadget` and plans its materialization and bind.
    /// `configfs_present` is the executor's observation of whether the
    /// ConfigFS root exists.  Nothing is mutated here: on any error the
    /// caller receives no operations, so no filesystem mutation can
    /// happen on a rejected enable.
    pub fn enable(&self, gadget: &UsbGadget, configfs_present: bool) -> (r: Result<
        Vec<FsOp>,
        StateError,
    >)
        ensures
            r is Ok <==> (configfs_present && !self@.bound && gadget@.valid()),
            r is Ok ==> ops_view(r->Ok_0@) == enable_ops(gadget@, self@.udc_name),
            !configfs_present ==> r == Result::<Vec<FsOp>, StateError>::Err(
                StateError::ConfigFsUnavailable,
            ),
            configfs_present && self@.bound ==> r == Result::<Vec<FsOp>, StateError>::Err(
                StateError::AlreadyBound,
            ),
            configfs_present && !self@.bound && !gadget@.names_valid() ==> r is Err
                && r->Err_0 is InvalidName,
            configfs_present && !self@.bound && gadget@.names_valid() && !gadget@.keys_unique()
                ==> r is Err && r->Err_0 is DuplicateFunction,
            configfs_present && !self@.bound && gadget@.names_valid() && gadget@.keys_unique()
                && !gadget@.refs_resolve() ==> r is Err
                && r->Err_0 is DanglingFunctionReference,
    {
        if !configfs_present {
            return Result::Err(StateError::ConfigFsUnavailable);
        }
        if self.bound {
            return Result::Err(StateError::AlreadyBound);
        }
        match gadget.validate() {
            Result::Err(e) => Result::Err(e),
            Result::Ok(()) => {
                let gadget_path = FsPath::single(gadget.name.as_str());
                let udc_file = gadget_path.child("UDC");
                let mut ops = gadget.write_to(&gadget_path);
                push_op(
                    &mut ops,
                    FsOp::WriteFile {
                        path: udc_file,
                        contents: self.udc_name.as_str().as_bytes_vec(),
                    },
                );
                proof {
                    assert(gadget_path@ =~= seq![gadget@.name]);
                    assert(udc_file@ =~= seq![gadget@.name, "UDC"@]);
                    assert(ops_view(ops@) =~= enable_ops(gadget@, self@.udc_name));
                }
                Result::Ok(ops)
            },
        }
    }

    /// Takes the executor's report on an enable plan.  Only a successful
    /// report moves the controller to `Bound`; a filesystem failure
    /// leaves the state unchanged (the partial tree is deliberately not
    /// rolled back) and surfaces as `FilesystemError`.
    pub fn finish_enable(&mut self, outcome: Result<(), FsFailure>) -> (r: Result<(), StateError>)
        requires
            !old(self)@.bound,
        ensures
            outcome is Ok ==> final(self)@ == (StateShape { bound: true, ..old(self)@ }) && r
                is Ok,
            outcome matches Err(f) ==> final(self)@ == old(self)@ && r == Result::<
                (),
                StateError,
            >::Err(StateError::FilesystemError { path: f.path, os_error: f.os_error }),
    {
        match outcome {
            Result::Ok(()) => {
                self.bound = true;
                Result::Ok(())
            },
            Result::Err(f) => Result::Err(
                StateError::FilesystemError { path: f.path, os_error: f.os_error },
            ),
        }
    }

    /// Plans the unbind and teardown of `gadget`.  The plan's first
    /// operation clears the `UDC` attribute; everything structural
    /// follows in exact reverse creation order.  Nothing is mutated
    /// here; on any error the caller receives no operations.
    pub fn disable(&self, gadget: &UsbGadget, configfs_present: bool) -> (r: Result<
        Vec<FsOp>,
        StateError,
    >)
        ensures
            r is Ok <==> (configfs_present && self@.bound),
            r is Ok ==> ops_view(r->Ok_0@) == disable_ops(gadget@),
            !configfs_present ==> r == Result::<Vec<FsOp>, StateError>::Err(
                StateError::ConfigFsUnavailable,
            ),
            configfs_present && !self@.bound ==> r == Result::<Vec<FsOp>, StateError>::Err(
                StateError::NotBound,
            ),
    {
        if !configfs_present {
            return Result::Err(StateError::ConfigFsUnavailable);
        }
        if !self.bound {
            return Result::Err(StateError::NotBound);
        }
        let gadget_path = FsPath::single(gadget.name.as_str());
        let udc_file = gadget_path.child("UDC");
        let mut ops: Vec<FsOp> = Vec::new();
        push_op(&mut ops, FsOp::WriteFile { path: udc_file, contents: Vec::new() });
        let more = gadget.remove_from(&gadget_path);
        crate::fsop::append_ops(&mut ops, more);
        proof {
            assert(gadget_path@ =~= seq![gadget@.name]);
            assert(udc_file@ =~= seq![gadget@.name, "UDC"@]);
            assert(ops_view(ops@) =~= disable_ops(gadget@));
        }
        Result::Ok(ops)
    }

    /// Takes the executor's report on a disable plan.  Only a successful
    /// report moves the controller back to `Unbound`.
    pub fn finish_disable(&mut self, outcome: Result<(), FsFailure>) -> (r: Result<(), StateError>)
        requires
            old(self)@.bound,
        ensures
            outcome is Ok ==> final(self)@ == (StateShape { bound: false, ..old(self)@ }) && r
                is Ok,
            outcome matches Err(f) ==> final(self)@ == old(self)@ && r == Result::<
                (),
                StateError,
            >::Err(StateError::FilesystemError { path: f.path, os_error: f.os_error }),
    {
        match outcome {
            Result::Ok(()) => {
                self.bound = false;
                Result::Ok(())
            },
            Result::Err(f) => Result::Err(
                StateError::FilesystemError { path: f.path, os_error: f.os_error },
            ),
        }
    }
}

} // verus!
