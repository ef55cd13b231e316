//! The kinds of function calls that the translation tells apart, each with what
//! its translation needs.

use crate::control_flow::{Location, Operand};
use crate::petri_net_interface::{NetView, PlaceId};
use vstd::prelude::*;

verus! {

/// The places between which the net of a function call lies.
#[derive(Clone, Copy, PartialEq, Eq, Structural, Debug)]
pub struct FunctionPlaces {
    /// Where the call starts.
    pub start_place: PlaceId,
    /// Where the program goes on when the call returns.
    pub end_place: PlaceId,
    /// Where the program goes on when the call unwinds, if it can.
    pub cleanup_place: Option<PlaceId>,
}

impl FunctionPlaces {
    /// The places belong to the net.
    pub open spec fn wf(self, net: NetView) -> bool {
        &&& net.has_place(self.start_place)
        &&& net.has_place(self.end_place)
        &&& self.cleanup_place matches Some(cleanup) ==> net.has_place(cleanup)
    }
}

/// A function call, sorted by how it is translated.
#[derive(Debug)]
pub enum FunctionCall<'a> {
    /// Call to a function that does not return.
    Diverging { function_name: String, start_place: PlaceId },
    /// Call to a function that always panics.
    Panic { function_name: String, start_place: PlaceId },
    /// Call to a function without blocks to walk.
    Foreign { function_name: String, places: FunctionPlaces },
    /// Call to a function with blocks to walk.
    MirFunction { function_def_id: usize, function_name: String, places: FunctionPlaces },
    /// Call to `std::sync::Mutex::<T>::new`.
    MutexNew { destination: Location, places: FunctionPlaces },
    /// Call to `std::sync::Mutex::<T>::lock`.
    MutexLock { args: &'a Vec<Operand>, destination: Location, places: FunctionPlaces },
    /// The end of a value that may be a lock guard.
    Drop { function_name: String, args: &'a Vec<Operand>, places: FunctionPlaces },
    /// Call to `std::thread::spawn`.
    ThreadSpawn { args: &'a Vec<Operand>, destination: Location, places: FunctionPlaces },
    /// Call to `std::thread::JoinHandle::<T>::join`.
    ThreadJoin { args: &'a Vec<Operand>, places: FunctionPlaces },
    /// Call to `std::sync::Condvar::new`.
    CondvarNew { destination: Location, places: FunctionPlaces },
    /// Call to `std::sync::Condvar::wait`.
    CondvarWait { args: &'a Vec<Operand>, destination: Location, places: FunctionPlaces },
    /// Call to `std::sync::Condvar::notify_one`.
    CondvarNotify { args: &'a Vec<Operand>, places: FunctionPlaces },
    /// Call to `std::sync::Arc::<T>::new`.
    ArcNew { args: &'a Vec<Operand>, destination: Location, places: FunctionPlaces },
    /// Call to `std::clone::Clone::clone`.
    ArcClone { args: &'a Vec<Operand>, destination: Location, places: FunctionPlaces },
    /// Call to `std::ops::Deref::deref`.
    ArcDeref { args: &'a Vec<Operand>, destination: Location, places: FunctionPlaces },
}

/// The mathematical model of a [`FunctionCall`].
pub enum FunctionCallView {
    Diverging { function_name: Seq<char>, start_place: PlaceId },
    Panic { function_name: Seq<char>, start_place: PlaceId },
    Foreign { function_name: Seq<char>, places: FunctionPlaces },
    MirFunction { function_def_id: usize, function_name: Seq<char>, places: FunctionPlaces },
    MutexNew { destination: Location, places: FunctionPlaces },
    MutexLock { args: Seq<Operand>, destination: Location, places: FunctionPlaces },
    Drop { function_name: Seq<char>, args: Seq<Operand>, places: FunctionPlaces },
    ThreadSpawn { args: Seq<Operand>, destination: Location, places: FunctionPlaces },
    ThreadJoin { args: Seq<Operand>, places: FunctionPlaces },
    CondvarNew { destination: Location, places: FunctionPlaces },
    CondvarWait { args: Seq<Operand>, destination: Location, places: FunctionPlaces },
    CondvarNotify { args: Seq<Operand>, places: FunctionPlaces },
    ArcNew { args: Seq<Operand>, destination: Location, places: FunctionPlaces },
    ArcClone { args: Seq<Operand>, destination: Location, places: FunctionPlaces },
    ArcDeref { args: Seq<Operand>, destination: Location, places: FunctionPlaces },
}

impl<'a> View for FunctionCall<'a> {
    type V = FunctionCallView;

    open spec fn view(&self) -> FunctionCallView {
        match *self {
            FunctionCall::Diverging { function_name, start_place } => FunctionCallView::Diverging {
                function_name: function_name@,
                start_place,
            },
            FunctionCall::Panic { function_name, start_place } => FunctionCallView::Panic {
                function_name: function_name@,
                start_place,
            },
            FunctionCall::Foreign { function_name, places } => FunctionCallView::Foreign {
                function_name: function_name@,
                places,
            },
            FunctionCall::MirFunction {
                function_def_id,
                function_name,
                places,
            } => FunctionCallView::MirFunction {
                function_def_id,
                function_name: function_name@,
                places,
            },
            FunctionCall::MutexNew { destination, places } => FunctionCallView::MutexNew {
                destination,
                places,
            },
            FunctionCall::MutexLock { args, destination, places } => FunctionCallView::MutexLock {
                args: args@,
                destination,
                places,
            },
            FunctionCall::Drop { function_name, args, places } => FunctionCallView::Drop {
                function_name: function_name@,
                args: args@,
                places,
            },
            FunctionCall::ThreadSpawn {
                args,
                destination,
                places,
            } => FunctionCallView::ThreadSpawn { args: args@, destination, places },
            FunctionCall::ThreadJoin { args, places } => FunctionCallView::ThreadJoin {
                args: args@,
                places,
            },
            FunctionCall::CondvarNew { destination, places } => FunctionCallView::CondvarNew {
                destination,
                places,
            },
            FunctionCall::CondvarWait {
                args,
                destination,
                places,
            } => FunctionCallView::CondvarWait { args: args@, destination, places },
            FunctionCall::CondvarNotify { args, places } => FunctionCallView::CondvarNotify {
                args: args@,
                places,
            },
            FunctionCall::ArcNew { args, destination, places } => FunctionCallView::ArcNew {
                args: args@,
                destination,
                places,
            },
            FunctionCall::ArcClone { args, destination, places } => FunctionCallView::ArcClone {
                args: args@,
                destination,
                places,
            },
            FunctionCall::ArcDeref { args, destination, places } => FunctionCallView::ArcDeref {
                args: args@,
                destination,
                places,
            },
        }
    }
}

impl FunctionCallView {
    /// The place at which the call starts.
    pub open spec fn start_place(self) -> PlaceId {
        match self {
            FunctionCallView::Diverging { function_name, start_place } => start_place,
            FunctionCallView::Panic { function_name, start_place } => start_place,
            FunctionCallView::Foreign { function_name, places } => places.start_place,
            FunctionCallView::MirFunction {
                function_def_id,
                function_name,
                places,
            } => places.start_place,
            FunctionCallView::MutexNew { destination, places } => places.start_place,
            FunctionCallView::MutexLock { args, destination, places } => places.start_place,
            FunctionCallView::Drop { function_name, args, places } => places.start_place,
            FunctionCallView::ThreadSpawn { args, destination, places } => places.start_place,
            FunctionCallView::ThreadJoin { args, places } => places.start_place,
            FunctionCallView::CondvarNew { destination, places } => places.start_place,
            FunctionCallView::CondvarWait { args, destination, places } => places.start_place,
            FunctionCallView::CondvarNotify { args, places } => places.start_place,
            FunctionCallView::ArcNew { args, destination, places } => places.start_place,
            FunctionCallView::ArcClone { args, destination, places } => places.start_place,
            FunctionCallView::ArcDeref { args, destination, places } => places.start_place,
        }
    }

    /// The places of the call belong to the net.
    pub open spec fn wf(self, net: NetView) -> bool {
        match self {
            FunctionCallView::Diverging { function_name, start_place } => net.has_place(
                start_place,
            ),
            FunctionCallView::Panic { function_name, start_place } => net.has_place(start_place),
            FunctionCallView::Foreign { function_name, places } => places.wf(net),
            FunctionCallView::MirFunction { function_def_id, function_name, places } => places.wf(
                net,
            ),
            FunctionCallView::MutexNew { destination, places } => places.wf(net),
            FunctionCallView::MutexLock { args, destination, places } => places.wf(net),
            FunctionCallView::Drop { function_name, args, places } => places.wf(net),
            FunctionCallView::ThreadSpawn { args, destination, places } => places.wf(net),
            FunctionCallView::ThreadJoin { args, places } => places.wf(net),
            FunctionCallView::CondvarNew { destination, places } => places.wf(net),
            FunctionCallView::CondvarWait { args, destination, places } => places.wf(net),
            FunctionCallView::CondvarNotify { args, places } => places.wf(net),
            FunctionCallView::ArcNew { args, destination, places } => places.wf(net),
            FunctionCallView::ArcClone { args, destination, places } => places.wf(net),
            FunctionCallView::ArcDeref { args, destination, places } => places.wf(net),
        }
    }
}

/// The location that the argument at a position of a call is read from, if the call
/// has this argument and it is no constant.
pub open spec fn argument_location(args: Seq<Operand>, n: int) -> Option<Location> {
    if 0 <= n < args.len() {
        args[n].location
    } else {
        None
    }
}

/// Finds the location that the argument at a position of a call is read from.
pub fn extract_nth_argument(args: &Vec<Operand>, n: usize) -> (location: Option<Location>)
    ensures
        location == argument_location(args@, n as int),
{
    if n < args.len() {
        args[n].location
    } else {
        None
    }
}

} // verus!
