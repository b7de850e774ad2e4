//! What the layers of the link have in common.
//!
//! Every layer takes a list of byte ranges, one node per layer, and may
//! put its own data in front of it or hand the rest on.
use vstd::prelude::*;

verus! {

/// What can go wrong in any layer.
#[allow(non_camel_case_types)]
#[derive(Debug, Clone, Copy, PartialEq, Eq, Structural)]
pub enum NetworkError {
    /// More data is needed.
    INCOMPLETE,
    /// The data does not follow the layer's format.
    INVALID,
    /// The layer cannot say what went wrong.
    UNKNOWN,
    /// The peer did not answer in time.
    TIMEOUT,
    /// The link below is gone.
    LINK_DOWN,
    /// The data is too long or too short for the layer.
    INVALID_SIZE,
}

/// One layer's view of a message: its own bytes, and the node of the
/// layer that handled the message before.
#[derive(Debug)]
pub struct IoNode<'a> {
    data: Option<&'a [u8]>,
    next: Option<Box<IoNode<'a>>>,
}

impl<'a> IoNode<'a> {
    /// The bytes of every layer, this node's first.
    pub closed spec fn layers(&self) -> Seq<Option<Seq<u8>>>
        decreases self,
    {
        let own = match self.data {
            Some(bytes) => Some(bytes@),
            None => None,
        };
        match self.next {
            Some(rest) => seq![own] + rest.layers(),
            None => seq![own],
        }
    }

    /// A list of one node.
    pub fn new(data: Option<&'a [u8]>) -> (node: Self)
        ensures
            node.layers() == seq![
                match data {
                    Some(bytes) => Some(bytes@),
                    None => None,
                },
            ],
    {
        IoNode { data, next: None }
    }

    /// The list `next` with one more node in front of it.
    pub fn with_next(data: Option<&'a [u8]>, next: IoNode<'a>) -> (node: Self)
        ensures
            node.layers() == seq![
                match data {
                    Some(bytes) => Some(bytes@),
                    None => None,
                },
            ] + next.layers(),
    {
        IoNode { data, next: Some(Box::new(next)) }
    }

    /// This node's own bytes.
    pub fn data(&self) -> (data: Option<&'a [u8]>)
        ensures
            self.layers().len() > 0,
            match self.layers()[0] {
                Some(bytes) => data matches Some(d) && d@ == bytes,
                None => data is None,
            },
    {
        self.data
    }

    /// The node of the layer before, if there is one.
    pub fn next(&self) -> (next: Option<&IoNode<'a>>)
        ensures
            self.layers().len() > 0,
            match next {
                Some(rest) => rest.layers() == self.layers().drop_first(),
                None => self.layers().len() == 1,
            },
    {
        match &self.next {
            Some(rest) => {
                assert((seq![self.layers()[0]] + rest.layers()).drop_first() == rest.layers());
                Some(&**rest)
            },
            None => None,
        }
    }
}

/// The two directions of one layer: what takes the list of a message on
/// its way down and may put this layer's data in front, and what takes
/// the list of a message on its way up. Either may be missing.
pub struct BasicNetworkLayer<Push, Pop> {
    /// Called with the list of a message on its way down.
    pub push: Option<Push>,
    /// Called with the list of a message on its way up.
    pub pop: Option<Pop>,
}

} // verus!
