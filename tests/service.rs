use ros2_client::{Client, Gid, Request, RequestId, Response, Server, ServiceError};

fn gid(v: u128) -> Gid {
    Gid { value: v }
}

#[test]
fn request_ids_are_pairwise_distinct() {
    let mut c = Client::new(gid(7));
    let mut ids: Vec<RequestId> = Vec::new();
    for _ in 0..50 {
        let req = c.send_request(vec![1, 2, 3]);
        assert_eq!(req.id.writer, gid(7));
        assert_eq!(req.payload, vec![1, 2, 3]);
        ids.push(req.id);
    }
    for i in 0..ids.len() {
        for j in (i + 1)..ids.len() {
            assert_ne!(ids[i], ids[j]);
        }
    }
}

#[test]
fn sequence_numbers_strictly_increase() {
    let mut c = Client::new(gid(1));
    let a = c.new_sequence_number();
    let b = c.new_sequence_number();
    let r = c.send_request(Vec::new());
    assert_eq!(a, 1);
    assert_eq!(b, 2);
    assert_eq!(r.id.seq, 3);
    assert_eq!(c.local_identity(), gid(1));
    assert!(c.can_send());
}

#[test]
fn matched_response_is_delivered_once() {
    let mut c = Client::new(gid(3));
    let req = c.send_request(vec![9]);
    let first = c.receive_response(Response { id: req.id, payload: vec![42] });
    let got = first.expect("the reply to a pending request is delivered");
    assert_eq!(got.id, req.id);
    assert_eq!(got.payload, vec![42]);
    let second = c.receive_response(Response { id: req.id, payload: vec![42] });
    assert!(second.is_none());
}

#[test]
fn unknown_reply_is_discarded() {
    let mut c = Client::new(gid(3));
    let _req = c.send_request(vec![9]);
    let stray = RequestId { writer: gid(3), seq: 99 };
    assert!(c.receive_response(Response { id: stray, payload: vec![] }).is_none());
}

#[test]
fn shared_reply_topic_has_no_cross_talk() {
    let mut a = Client::new(gid(10));
    let mut b = Client::new(gid(20));
    let ra = a.send_request(vec![1]);
    let rb = b.send_request(vec![2]);
    // Both clients start their counters at the same value.
    assert_eq!(ra.id.seq, rb.id.seq);
    let inbox = || {
        vec![
            Response { id: ra.id, payload: vec![b'a'] },
            Response { id: rb.id, payload: vec![b'b'] },
            Response { id: ra.id, payload: vec![b'a'] },
        ]
    };
    let got_a = a.receive_responses(inbox());
    let got_b = b.receive_responses(inbox());
    assert_eq!(got_a.len(), 1);
    assert_eq!(got_a[0].id, ra.id);
    assert_eq!(got_a[0].payload, vec![b'a']);
    assert_eq!(got_b.len(), 1);
    assert_eq!(got_b[0].id, rb.id);
    assert_eq!(got_b[0].payload, vec![b'b']);
}

#[test]
fn replies_may_complete_in_any_order() {
    let mut c = Client::new(gid(5));
    let r1 = c.send_request(vec![1]);
    let r2 = c.send_request(vec![2]);
    let r3 = c.send_request(vec![3]);
    let got = c.receive_responses(vec![
        Response { id: r3.id, payload: vec![30] },
        Response { id: r1.id, payload: vec![10] },
    ]);
    assert_eq!(got.len(), 2);
    assert_eq!(got[0].id, r3.id);
    assert_eq!(got[1].id, r1.id);
    let later = c.receive_responses(vec![
        Response { id: r1.id, payload: vec![10] },
        Response { id: r2.id, payload: vec![20] },
    ]);
    assert_eq!(later.len(), 1);
    assert_eq!(later[0].id, r2.id);
    assert_eq!(later[0].payload, vec![20]);
}

#[test]
fn abandoned_request_gets_no_reply() {
    let mut c = Client::new(gid(4));
    let req = c.send_request(vec![]);
    assert!(c.abandon(req.id));
    assert!(!c.abandon(req.id));
    assert!(c.receive_response(Response { id: req.id, payload: vec![] }).is_none());
}

#[test]
fn failed_write_is_reported_and_not_awaited() {
    let mut c = Client::new(gid(4));
    let req = c.send_request(vec![5]);
    assert_eq!(c.complete_send(req.id, false), Err(ServiceError::TransportError));
    assert!(c.receive_response(Response { id: req.id, payload: vec![] }).is_none());
    let ok = c.send_request(vec![6]);
    assert_eq!(c.complete_send(ok.id, true), Ok(ok.id));
    assert!(c.receive_response(Response { id: ok.id, payload: vec![] }).is_some());
}

#[test]
fn server_suppresses_recent_duplicates() {
    let mut s = Server::new(gid(100), 2);
    let id1 = RequestId { writer: gid(1), seq: 1 };
    let id2 = RequestId { writer: gid(1), seq: 2 };
    let id3 = RequestId { writer: gid(2), seq: 1 };
    let got = s.receive_request(Request { id: id1, payload: vec![7] }).expect("fresh request");
    assert_eq!(got.id, id1);
    assert_eq!(got.payload, vec![7]);
    assert!(s.receive_request(Request { id: id1, payload: vec![7] }).is_none());
    assert!(s.receive_request(Request { id: id2, payload: vec![] }).is_some());
    assert!(s.receive_request(Request { id: id3, payload: vec![] }).is_some());
    // The window holds two keys: the oldest one was forgotten.
    assert!(s.receive_request(Request { id: id1, payload: vec![] }).is_some());
    assert!(s.receive_request(Request { id: id3, payload: vec![] }).is_none());
}

#[test]
fn server_with_empty_window_delivers_every_copy() {
    let mut s = Server::new(gid(100), 0);
    let id = RequestId { writer: gid(1), seq: 1 };
    assert!(s.receive_request(Request { id, payload: vec![] }).is_some());
    assert!(s.receive_request(Request { id, payload: vec![] }).is_some());
}

#[test]
fn server_echoes_request_id_unchanged() {
    let s = Server::new(gid(100), 4);
    let id = RequestId { writer: gid(u128::MAX), seq: u64::MAX - 1 };
    let resp = s.send_response(id, vec![1, 2]);
    assert_eq!(resp.id, id);
    assert_eq!(resp.payload, vec![1, 2]);
    assert_eq!(s.local_identity(), gid(100));
}

#[test]
fn round_trip_through_server() {
    let mut c = Client::new(gid(8));
    let mut s = Server::new(gid(9), 16);
    let req = c.send_request(vec![3]);
    let got = s.receive_request(req).expect("delivered");
    let resp = s.send_response(got.id, vec![got.payload[0] * 2]);
    let back = c.receive_response(resp).expect("matched");
    assert_eq!(back.payload, vec![6]);
}
