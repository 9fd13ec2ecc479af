//! The plan behind a generated method channel handler: which methods it answers,
//! what each of their arguments receives, and who sends the reply.

use vstd::prelude::*;

use crate::text::same_text;

verus! {

/// A marker on an argument of a method channel handler.
#[derive(Clone, Copy, Debug, PartialEq, Eq, Structural, PartialOrd, Ord)]
pub enum CallHandlerArgumentAttribute {
    /// The argument receives the engine the call came from.
    Engine,
    /// The argument receives the responder of the call.
    Responder,
}

/// The marker an attribute path names, if any.
pub open spec fn marker_named(name: Seq<char>) -> Option<CallHandlerArgumentAttribute> {
    if name == "engine"@ {
        Some(CallHandlerArgumentAttribute::Engine)
    } else if name == "responder"@ {
        Some(CallHandlerArgumentAttribute::Responder)
    } else {
        None
    }
}

/// The marker an attribute stands for, given the name of its path (`None` for a path
/// that is not a single name).
pub open spec fn attribute_marker(attribute: Option<String>) -> Option<CallHandlerArgumentAttribute> {
    match attribute {
        Some(name) => marker_named(name@),
        None => None,
    }
}

/// The markers that the attributes stand for, in order.
pub open spec fn markers_of(attributes: Seq<Option<String>>) -> Seq<CallHandlerArgumentAttribute>
    decreases attributes.len(),
{
    if attributes.len() == 0 {
        Seq::empty()
    } else {
        let front = markers_of(attributes.drop_last());
        match attribute_marker(attributes.last()) {
            Some(marker) => front.push(marker),
            None => front,
        }
    }
}

impl CallHandlerArgumentAttribute {
    /// The marker an attribute path with the given name stands for.
    pub fn from_attr(name: &str) -> (marker: Option<Self>)
        ensures
            marker == marker_named(name@),
    {
        if same_text(name, "engine") {
            Some(Self::Engine)
        } else if same_text(name, "responder") {
            Some(Self::Responder)
        } else {
            None
        }
    }

    /// The markers among an argument's attributes, given by the names of their paths.
    pub fn from_attrs(attributes: &Vec<Option<String>>) -> (markers: Vec<Self>)
        ensures
            markers@ == markers_of(attributes@),
    {
        let mut markers: Vec<Self> = Vec::new();
        let mut index: usize = 0;
        while index < attributes.len()
            invariant
                index <= attributes@.len(),
                markers@ == markers_of(attributes@.take(index as int)),
            decreases attributes@.len() - index,
        {
            proof {
                assert(attributes@.take(index + 1).drop_last() =~= attributes@.take(index as int));
            }
            let found = match &attributes[index] {
                Some(name) => Self::from_attr(name.as_str()),
                None => None,
            };
            match found {
                Some(marker) => markers.push(marker),
                None => {},
            }
            index = index + 1;
        }
        assert(attributes@.take(attributes@.len() as int) =~= attributes@);
        markers
    }

    /// Takes the markers out of an argument's attributes, keeping the others in order.
    pub fn clean(attributes: &mut Vec<Option<String>>)
        ensures
            final(attributes)@ == old(attributes)@.filter(
                |attribute: Option<String>| attribute_marker(attribute) is None,
            ),
    {
        let ghost given = attributes@;
        let ghost keep = |attribute: Option<String>| attribute_marker(attribute) is None;
        let mut rest: Vec<Option<String>> = Vec::new();
        std::mem::swap(attributes, &mut rest);
        let mut taken: usize = 0;
        proof {
            reveal(Seq::filter);
            assert(given.take(0) =~= Seq::<Option<String>>::empty());
        }
        let total = rest.len();
        while taken < total
            invariant
                total == given.len(),
                taken <= total,
                keep == (|attribute: Option<String>| attribute_marker(attribute) is None),
                rest@ == given.skip(taken as int),
                attributes@ == given.take(taken as int).filter(keep),
            decreases total - taken,
        {
            let attribute = rest.remove(0);
            let ghost current = attribute;
            let ghost before = attributes@;
            let marker = match &attribute {
                Some(name) => Self::from_attr(name.as_str()),
                None => None,
            };
            assert(marker == attribute_marker(current));
            if marker.is_none() {
                attributes.push(attribute);
                assert(attributes@ == before.push(current));
            }
            proof {
                let longer = given.take(taken + 1);
                assert(current == given[taken as int]);
                assert(longer.drop_last() =~= given.take(taken as int));
                assert(longer.last() == current);
                reveal(Seq::filter);
                assert(longer.filter(keep) == if keep(current) {
                    before.push(current)
                } else {
                    before
                });
            }
            taken = taken + 1;
            proof {
                assert(rest@ =~= given.skip(taken as int));
            }
        }
        assert(given.take(given.len() as int) =~= given);
    }
}

/// What an argument of a handled method receives.
#[derive(Clone, Copy, Debug, PartialEq, Eq, Structural)]
pub enum ArgumentSource {
    /// The engine the call came from.
    Engine,
    /// The responder of the call.
    Responder,
    /// This field of the tuple the call's arguments are decoded into.
    Decoded(usize),
}

/// The argument carries neither marker, so it is decoded from the call.
pub open spec fn is_decoded(markers: Seq<CallHandlerArgumentAttribute>) -> bool {
    !markers.contains(CallHandlerArgumentAttribute::Engine) && !markers.contains(
        CallHandlerArgumentAttribute::Responder,
    )
}

/// How many of the arguments are decoded from the call.
pub open spec fn decoded_count(arguments: Seq<Seq<CallHandlerArgumentAttribute>>) -> nat
    decreases arguments.len(),
{
    if arguments.len() == 0 {
        0
    } else {
        decoded_count(arguments.drop_last()) + if is_decoded(arguments.last()) {
            1nat
        } else {
            0nat
        }
    }
}

/// What the argument at `index` receives: the engine if it is marked so, else the
/// responder if it is marked so, else the next field of the decoded tuple.
pub open spec fn argument_source(arguments: Seq<Seq<CallHandlerArgumentAttribute>>, index: int) -> ArgumentSource {
    let markers = arguments[index];
    if markers.contains(CallHandlerArgumentAttribute::Engine) {
        ArgumentSource::Engine
    } else if markers.contains(CallHandlerArgumentAttribute::Responder) {
        ArgumentSource::Responder
    } else {
        ArgumentSource::Decoded(decoded_count(arguments.take(index)) as usize)
    }
}

/// The arm a handler gets for one method.
pub struct CallArm {
    /// The name the method is called by.
    pub method: String,
    /// The method is called on the handler (`self.`) rather than on its type.
    pub takes_self: bool,
    /// What each argument receives, in order.
    pub sources: Vec<ArgumentSource>,
    /// How many fields the decoded argument tuple has; none means the arguments decode
    /// into `()`.
    pub decoded: usize,
    /// The method takes the responder and answers the call itself; otherwise its result
    /// is the reply.
    pub replies_itself: bool,
}

/// `arm` is the arm of the method `method` whose arguments carry `markers`.
pub open spec fn planned_arm(
    arm: CallArm,
    method: Seq<char>,
    takes_self: bool,
    markers: Seq<Seq<CallHandlerArgumentAttribute>>,
) -> bool {
    &&& arm.method@ == method
    &&& arm.takes_self == takes_self
    &&& arm.sources@.len() == markers.len()
    &&& forall|i: int|
        0 <= i < markers.len() ==> #[trigger] arm.sources@[i] == argument_source(markers, i)
    &&& arm.decoded == decoded_count(markers)
    &&& arm.replies_itself == exists|i: int|
        0 <= i < markers.len() && #[trigger] arm.sources@[i] == ArgumentSource::Responder
}

/// `markers` holds the given marker.
fn holds_marker(markers: &Vec<CallHandlerArgumentAttribute>, marker: CallHandlerArgumentAttribute) -> (held:
    bool)
    ensures
        held == markers@.contains(marker),
{
    let mut index: usize = 0;
    while index < markers.len()
        invariant
            index <= markers@.len(),
            forall|i: int| 0 <= i < index ==> markers@[i] != marker,
        decreases markers@.len() - index,
    {
        if markers[index] == marker {
            assert(markers@[index as int] == marker);
            return true;
        }
        index = index + 1;
    }
    false
}

/// The arm for a method: public methods get one, others none. `arguments` holds the
/// markers of each argument other than the receiver.
pub fn plan_arm(
    public: bool,
    method: String,
    takes_self: bool,
    arguments: &Vec<Vec<CallHandlerArgumentAttribute>>,
) -> (arm: Option<CallArm>)
    requires
        arguments@.len() < usize::MAX,
    ensures
        !public ==> arm is None,
        public ==> arm is Some,
        arm matches Some(a) ==> planned_arm(
            a,
            method@,
            takes_self,
            arguments@.map_values(|m: Vec<CallHandlerArgumentAttribute>| m@),
        ),
{
    if !public {
        return None;
    }
    let ghost markers = arguments@.map_values(|m: Vec<CallHandlerArgumentAttribute>| m@);
    let mut sources: Vec<ArgumentSource> = Vec::new();
    let mut decoded: usize = 0;
    let mut replies_itself = false;
    let mut index: usize = 0;
    while index < arguments.len()
        invariant
            index <= arguments@.len(),
            arguments@.len() < usize::MAX,
            markers == arguments@.map_values(|m: Vec<CallHandlerArgumentAttribute>| m@),
            sources@.len() == index,
            forall|i: int| 0 <= i < index ==> #[trigger] sources@[i] == argument_source(markers, i),
            decoded == decoded_count(markers.take(index as int)),
            decoded <= index,
            replies_itself == exists|i: int|
                0 <= i < index && #[trigger] sources@[i] == ArgumentSource::Responder,
        decreases arguments@.len() - index,
    {
        let current = &arguments[index];
        proof {
            assert(markers.take(index + 1).drop_last() =~= markers.take(index as int));
            assert(markers[index as int] == current@);
        }
        let source = if holds_marker(current, CallHandlerArgumentAttribute::Engine) {
            ArgumentSource::Engine
        } else if holds_marker(current, CallHandlerArgumentAttribute::Responder) {
            replies_itself = true;
            ArgumentSource::Responder
        } else {
            let position = decoded;
            decoded = decoded + 1;
            ArgumentSource::Decoded(position)
        };
        let ghost previous = sources@;
        let ghost replied_before = exists|i: int|
            0 <= i < index && #[trigger] previous[i] == ArgumentSource::Responder;
        sources.push(source);
        index = index + 1;
        proof {
            assert(sources@ == previous.push(source));
            assert(sources@[index - 1] == source);
            if replied_before {
                let w = choose|i: int| 0 <= i < index - 1 && #[trigger] previous[i] == ArgumentSource::Responder;
                assert(sources@[w] == previous[w]);
            }
            if !replies_itself {
                assert forall|i: int| 0 <= i < index implies #[trigger] sources@[i] != ArgumentSource::Responder by {
                    if i < index - 1 {
                        assert(sources@[i] == previous[i]);
                    }
                }
            }
        }
    }
    assert(markers.take(arguments@.len() as int) =~= markers);
    Some(CallArm { method, takes_self, sources, decoded, replies_itself })
}

} // verus!
