use rustproxy::bridge::{bridge_step, BridgeAction, BridgeCounters, BridgeEvent};

#[test]
fn bytes_are_counted_each_way() {
    let c = BridgeCounters { bytes_in: 0, bytes_out: 0 };
    let (c, a) = bridge_step(c, BridgeEvent::Near { len: 100 });
    assert_eq!(a, BridgeAction::SendToTunnel);
    let (c, a) = bridge_step(c, BridgeEvent::TunnelData { len: 40 });
    assert_eq!(a, BridgeAction::WriteToNear);
    let (c, a) = bridge_step(c, BridgeEvent::TunnelControl);
    assert_eq!(a, BridgeAction::Ignore);
    let (c, _) = bridge_step(c, BridgeEvent::Near { len: 1 });
    assert_eq!(c, BridgeCounters { bytes_in: 101, bytes_out: 40 });
}

#[test]
fn ends_close_the_other_side() {
    let c = BridgeCounters { bytes_in: 5, bytes_out: 6 };
    assert_eq!(bridge_step(c, BridgeEvent::NearEnd), (c, BridgeAction::CloseTunnel));
    assert_eq!(bridge_step(c, BridgeEvent::TunnelEnd), (c, BridgeAction::CloseNear));
    assert_eq!(bridge_step(c, BridgeEvent::NearGone), (c, BridgeAction::Stop));
    assert_eq!(bridge_step(c, BridgeEvent::TunnelGone), (c, BridgeAction::Stop));
    assert_eq!(bridge_step(c, BridgeEvent::WriteFailed), (c, BridgeAction::Stop));
}

#[test]
fn empty_chunk_from_a_channel_is_forwarded() {
    let c = BridgeCounters { bytes_in: 0, bytes_out: 0 };
    assert_eq!(bridge_step(c, BridgeEvent::Near { len: 0 }), (c, BridgeAction::SendToTunnel));
}

#[test]
fn delivered_chunks_are_reported() {
    let c = BridgeCounters { bytes_in: 7, bytes_out: 9 };
    assert_eq!(
        bridge_step(c, BridgeEvent::SentToTunnel { len: 100 }),
        (c, BridgeAction::Report { bytes_in: 100, bytes_out: 0 })
    );
    assert_eq!(
        bridge_step(c, BridgeEvent::WrittenToNear { len: 40 }),
        (c, BridgeAction::Report { bytes_in: 0, bytes_out: 40 })
    );
}
