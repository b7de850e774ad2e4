use framelink::add_protocol::{BasicNetworkLayer, IoNode, NetworkError};

fn count(node: &IoNode) -> Option<NetworkError> {
    match node.data() {
        Some(data) if data.len() <= 4 => None,
        Some(_) => Some(NetworkError::INVALID_SIZE),
        None => Some(NetworkError::INCOMPLETE),
    }
}

#[test]
fn single_node_holds_its_data() {
    let bytes = [1u8, 2, 3];
    let node = IoNode::new(Some(&bytes));
    assert_eq!(node.data(), Some(&bytes[..]));
    assert!(node.next().is_none());
    let empty = IoNode::new(None);
    assert_eq!(empty.data(), None);
}

#[test]
fn nodes_chain_from_the_newest_layer_down() {
    let inner = [9u8];
    let outer = [1u8, 2];
    let list = IoNode::with_next(Some(&outer), IoNode::new(Some(&inner)));
    assert_eq!(list.data(), Some(&outer[..]));
    let next = list.next().unwrap();
    assert_eq!(next.data(), Some(&inner[..]));
    assert!(next.next().is_none());
}

#[test]
fn layer_holds_its_two_directions() {
    let layer = BasicNetworkLayer {
        push: Some(count as fn(&IoNode) -> Option<NetworkError>),
        pop: None::<fn(&IoNode) -> Option<NetworkError>>,
    };
    let long = [0u8; 5];
    assert_eq!((layer.push.unwrap())(&IoNode::new(Some(&long))), Some(NetworkError::INVALID_SIZE));
    assert_eq!((layer.push.unwrap())(&IoNode::new(Some(&long[..2]))), None);
    assert_eq!((layer.push.unwrap())(&IoNode::new(None)), Some(NetworkError::INCOMPLETE));
    assert!(layer.pop.is_none());
}

#[test]
fn errors_are_told_apart() {
    let all = [
        NetworkError::INCOMPLETE,
        NetworkError::INVALID,
        NetworkError::UNKNOWN,
        NetworkError::TIMEOUT,
        NetworkError::LINK_DOWN,
        NetworkError::INVALID_SIZE,
    ];
    for (i, a) in all.iter().enumerate() {
        for (j, b) in all.iter().enumerate() {
            assert_eq!(a == b, i == j);
        }
    }
}
