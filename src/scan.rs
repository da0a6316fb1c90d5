use vstd::prelude::*;

verus! {

/// The port every probe goes to.
pub const MINECRAFT_PORT: u16 = 25565;

/// How many discovered addresses may wait between the generators and the
/// consumer.
pub const QUEUE_CAPACITY: usize = 256;

/// How many discovered addresses may be worked on at once.
pub const MAX_WORKERS: usize = 4096;

/// How many records one refresh round re-probes at once.
pub const REFRESH_CHUNK: usize = 100;

/// Seconds a reachability test may take.
pub const PORT_TIMEOUT_SECS: u64 = 3;

/// Seconds one record's refresh may take.
pub const REFRESH_TIMEOUT_SECS: u64 = 5;

/// Seconds between refresh rounds.
pub const REFRESH_PERIOD_SECS: u64 = 300;

/// Relies on rand 0.8's `Rng::gen_range` on the thread-local generator: a
/// number drawn from `0..256`, so below 256.
#[verifier::external_body]
fn random_octet() -> (r: u16)
    ensures
        r < 256,
{
    rand::Rng::gen_range(&mut rand::thread_rng(), 0u16..256u16)
}

/// A random IPv4 address, each of its four octets drawn from the whole range
/// 0..=255; reserved ranges are not filtered.
pub fn get_random_ip() -> (r: [u8; 4]) {
    let a = random_octet() as u8;
    let b = random_octet() as u8;
    let c = random_octet() as u8;
    let d = random_octet() as u8;
    [a, b, c, d]
}

/// The address a generator hands to the workers after testing `ip`'s
/// Minecraft port: only one whose port answered, at the Minecraft port.
pub fn scan_target(ip: [u8; 4], port_open: bool) -> (r: Option<([u8; 4], u16)>)
    ensures
        r is Some <==> port_open,
        r matches Some((a, p)) ==> a == ip && p == MINECRAFT_PORT,
{
    if port_open {
        Some((ip, MINECRAFT_PORT))
    } else {
        None
    }
}

/// The start and end of the `i`-th refresh chunk of `count` records.
pub open spec fn chunk_spec(count: nat, i: nat) -> (nat, nat) {
    let start = i * 100;
    (start, if start + 100 <= count { start + 100 } else { count })
}

/// The chunks in which a refresh round re-probes `count` records: consecutive
/// ranges of `REFRESH_CHUNK` records, the last one possibly shorter, that
/// cover every record once.
pub fn refresh_chunks(count: usize) -> (r: Vec<(usize, usize)>)
    ensures
        r@.len() == (count + 99) / 100,
        forall|i: int|
            0 <= i < r@.len() ==> (#[trigger] r@[i]).0 == chunk_spec(count as nat, i as nat).0
                && r@[i].1 == chunk_spec(count as nat, i as nat).1,
{
    let mut chunks: Vec<(usize, usize)> = Vec::new();
    let mut start: usize = 0;
    while start < count
        invariant
            start <= count,
            start % 100 == 0,
            chunks@.len() == start / 100,
            forall|i: int|
                0 <= i < chunks@.len() ==> (#[trigger] chunks@[i]).0 == chunk_spec(
                    count as nat,
                    i as nat,
                ).0 && chunks@[i].1 == chunk_spec(count as nat, i as nat).1,
        decreases count - start,
    {
        let end = if count - start >= REFRESH_CHUNK {
            start + REFRESH_CHUNK
        } else {
            count
        };
        chunks.push((start, end));
        if end == count {
            start = count;
            assert(chunks@.len() == (count + 99) / 100);
            return chunks;
        }
        start = end;
    }
    assert(chunks@.len() == (count + 99) / 100);
    chunks
}

} // verus!
