//! The observable effects an operation reports back to its caller: a list
//! of `(key, value)` attributes and named events for audit logging.

use vstd::prelude::*;

verus! {

/// One `(key, value)` effect attribute.
#[derive(Debug)]
pub struct Attribute {
    pub key: String,
    pub value: String,
}

/// Mathematical value of an [`Attribute`].
#[verifier::ext_equal]
pub ghost struct AttributeView {
    pub key: Seq<char>,
    pub value: Seq<char>,
}

impl View for Attribute {
    type V = AttributeView;

    open spec fn view(&self) -> AttributeView {
        AttributeView { key: self.key@, value: self.value@ }
    }
}

/// A named event carrying its own attributes.
#[derive(Debug)]
pub struct Event {
    /// The event's type name.
    pub ty: String,
    pub attributes: Vec<Attribute>,
}

/// Mathematical value of an [`Event`].
#[verifier::ext_equal]
pub ghost struct EventView {
    pub ty: Seq<char>,
    pub attributes: Seq<AttributeView>,
}

impl View for Event {
    type V = EventView;

    open spec fn view(&self) -> EventView {
        EventView { ty: self.ty@, attributes: self.attributes@.map_values(|a: Attribute| a@) }
    }
}

impl Event {
    /// An event of the given type with no attributes yet.
    pub fn new(ty: &str) -> (e: Event)
        ensures
            e@.ty == ty@,
            e@.attributes.len() == 0,
    {
        let e = Event { ty: ty.to_owned(), attributes: Vec::new() };
        proof {
            assert(e@.attributes =~= Seq::<AttributeView>::empty());
        }
        e
    }

    /// Appends one attribute.
    pub fn add_attribute(self, key: &str, value: &str) -> (e: Event)
        ensures
            e@.ty == self@.ty,
            e@.attributes == self@.attributes.push(
                (AttributeView { key: key@, value: value@ }),
            ),
    {
        let ghost orig = self@;
        let mut e = self;
        e.attributes.push(Attribute { key: key.to_owned(), value: value.to_owned() });
        proof {
            assert(e@.attributes =~= orig.attributes.push(
                (AttributeView { key: key@, value: value@ }),
            ));
        }
        e
    }
}

/// What an operation reports on success: attributes and events.
#[derive(Debug)]
pub struct Response {
    pub attributes: Vec<Attribute>,
    pub events: Vec<Event>,
}

/// Mathematical value of a [`Response`].
#[verifier::ext_equal]
pub ghost struct ResponseView {
    pub attributes: Seq<AttributeView>,
    pub events: Seq<EventView>,
}

impl View for Response {
    type V = ResponseView;

    open spec fn view(&self) -> ResponseView {
        ResponseView {
            attributes: self.attributes@.map_values(|a: Attribute| a@),
            events: self.events@.map_values(|e: Event| e@),
        }
    }
}

impl Response {
    /// An empty response.
    pub fn new() -> (r: Response)
        ensures
            r@.attributes.len() == 0,
            r@.events.len() == 0,
    {
        let r = Response { attributes: Vec::new(), events: Vec::new() };
        proof {
            assert(r@.attributes =~= Seq::<AttributeView>::empty());
            assert(r@.events =~= Seq::<EventView>::empty());
        }
        r
    }

    /// Appends one attribute.
    pub fn add_attribute(self, key: &str, value: &str) -> (r: Response)
        ensures
            r@.attributes == self@.attributes.push(
                (AttributeView { key: key@, value: value@ }),
            ),
            r@.events == self@.events,
    {
        let ghost orig = self@;
        let mut r = self;
        r.attributes.push(Attribute { key: key.to_owned(), value: value.to_owned() });
        proof {
            assert(r@.attributes =~= orig.attributes.push(
                (AttributeView { key: key@, value: value@ }),
            ));
            assert(r@.events =~= orig.events);
        }
        r
    }

    /// Appends one event.
    pub fn add_event(self, event: Event) -> (r: Response)
        ensures
            r@.attributes == self@.attributes,
            r@.events == self@.events.push(event@),
    {
        let ghost orig = self@;
        let mut r = self;
        r.events.push(event);
        proof {
            assert(r@.attributes =~= orig.attributes);
            assert(r@.events =~= orig.events.push(event@));
        }
        r
    }
}

} // verus!
