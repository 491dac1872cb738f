use futures::stream::Stream;
use tcp_check::channel::{HandoffChannel, CHANNEL_CAPACITY};
use tcp_check::export::{build_pipelines, drain_to_consumer};
use tcp_check::pipeline::NfConfig;

fn eth(etype: u16, payload: &[u8]) -> Vec<u8> {
    let mut f = vec![0u8; 12];
    f.push((etype >> 8) as u8);
    f.push((etype & 0xff) as u8);
    f.extend_from_slice(payload);
    f
}

fn udp(payload: &[u8]) -> Vec<u8> {
    let mut p: Vec<u8> = Vec::new();
    p.push(0x45);
    p.push(0x00);
    p.extend_from_slice(&((28 + payload.len()) as u16).to_be_bytes());
    p.extend_from_slice(&[0, 0, 0, 0]);
    p.push(64);
    p.push(17);
    p.extend_from_slice(&[0, 0]);
    p.extend_from_slice(&[10, 0, 0, 1]);
    p.extend_from_slice(&[10, 254, 24, 3]);
    p.extend_from_slice(&40u16.to_be_bytes());
    p.extend_from_slice(&53u16.to_be_bytes());
    p.extend_from_slice(&((8 + payload.len()) as u16).to_be_bytes());
    p.extend_from_slice(&[0, 0]);
    p.extend_from_slice(payload);
    eth(0x0800, &p)
}

#[test]
fn one_pipeline_per_port() {
    let (send, _recv) = futures::sync::mpsc::channel::<Vec<u8>>(CHANNEL_CAPACITY);
    let pipelines = build_pipelines(3, &send);
    assert_eq!(pipelines.len(), 3);
    for (i, p) in pipelines.iter().enumerate() {
        assert_eq!(p.port(), i);
    }
}

#[test]
fn drain_forwards_queued_payloads_in_order() {
    let (mut send, recv) = futures::sync::mpsc::channel::<Vec<u8>>(16);
    let mut chan = HandoffChannel::new(CHANNEL_CAPACITY);
    assert_eq!(chan.try_send(vec![1, 2]), Ok(()));
    assert_eq!(chan.try_send(vec![3]), Ok(()));
    let delivered = drain_to_consumer(&mut chan, &mut send);
    assert_eq!(delivered, 2);
    assert_eq!(chan.len(), 0);
    drop(send);
    let got: Vec<Vec<u8>> = recv.wait().map(|r| r.unwrap()).collect();
    assert_eq!(got, vec![vec![1, 2], vec![3]]);
}

#[test]
fn tick_exports_payloads_to_the_consumer() {
    let (send, recv) = futures::sync::mpsc::channel::<Vec<u8>>(16);
    let mut pipelines = build_pipelines(1, &send);
    drop(send);
    let cfg = NfConfig::new(0x0afe1803, vec![0xfa, 0x16, 0x3e, 0xfa, 0xc8, 0xfd]);
    let mut chan = HandoffChannel::new(CHANNEL_CAPACITY);
    let batch = vec![udp(&[9, 9, 9]), eth(0x88cc, &[1])];
    let out = pipelines[0].tick(batch, &cfg, &mut chan);
    assert_eq!(out.merged.len(), 2);
    assert_eq!(out.dropped, 0);
    assert_eq!(chan.len(), 0);
    drop(pipelines);
    let got: Vec<Vec<u8>> = recv.wait().map(|r| r.unwrap()).collect();
    assert_eq!(got, vec![vec![9, 9, 9]]);
}
