use relay_server::{add_remote_icecandidate, send_local_icecandidate, IceCandidate, IceCandidateInit};

fn wire(n: u16, mid: Option<&str>, index: Option<u16>, ufrag: Option<&str>) -> IceCandidate {
    IceCandidate {
        candidate: format!("candidate:{}", n),
        sdp_mid: mid.map(|m| m.to_string()),
        sdp_mline_index: index,
        username_fragment: ufrag.map(|u| u.to_string()),
    }
}

fn init(n: u16, mid: &str, index: u16, ufrag: &str) -> IceCandidateInit {
    IceCandidateInit {
        candidate: format!("candidate:{}", n),
        sdp_mid: mid.to_string(),
        sdp_mline_index: index,
        username_fragment: ufrag.to_string(),
    }
}

#[test]
fn candidate_is_forwarded_with_a_remote_description() {
    let mut delayed = vec![wire(1, None, None, None)];
    let forward = add_remote_icecandidate(true, wire(2, Some("a"), Some(7), Some("u")), &mut delayed);
    assert_eq!(forward, Some(init(2, "a", 7, "u")));
    assert_eq!(delayed, vec![wire(1, None, None, None)]);
}

#[test]
fn candidate_waits_without_a_remote_description() {
    let mut delayed = vec![wire(1, None, None, None)];
    let forward = add_remote_icecandidate(false, wire(2, Some("a"), Some(7), None), &mut delayed);
    assert_eq!(forward, None);
    assert_eq!(delayed, vec![wire(1, None, None, None), wire(2, Some("a"), Some(7), None)]);
    let forward = add_remote_icecandidate(false, wire(3, None, None, None), &mut delayed);
    assert_eq!(forward, None);
    assert_eq!(delayed.len(), 3);
    assert_eq!(delayed[2], wire(3, None, None, None));
}

#[test]
fn what_a_peer_leaves_out_is_empty_or_zero() {
    assert_eq!(wire(1, None, None, None).into_init(), init(1, "", 0, ""));
    assert_eq!(wire(1, Some("m"), None, None).into_init(), init(1, "m", 0, ""));
    assert_eq!(wire(1, None, Some(65535), None).into_init(), init(1, "", 65535, ""));
    assert_eq!(wire(1, None, None, Some("u")).into_init(), init(1, "", 0, "u"));
    assert_eq!(wire(1, Some(""), Some(0), Some("")).into_init(), init(1, "", 0, ""));
}

#[test]
fn a_local_candidate_says_every_field() {
    assert_eq!(init(4, "", 0, "").into_candidate(), wire(4, Some(""), Some(0), Some("")));
    assert_eq!(init(4, "0", 3, "uf").into_candidate(), wire(4, Some("0"), Some(3), Some("uf")));
    assert_eq!(
        send_local_icecandidate(Some(init(5, "1", 2, "x"))),
        Some(wire(5, Some("1"), Some(2), Some("x")))
    );
    assert_eq!(send_local_icecandidate(None), None);
}

#[test]
fn conversions_there_and_back() {
    let full = wire(9, Some("mid"), Some(12), Some("frag"));
    assert_eq!(full.clone().into_init().into_candidate(), full);
    let bare = wire(9, None, None, None);
    assert_eq!(bare.into_init().into_candidate(), wire(9, Some(""), Some(0), Some("")));
}
