//! Process-lifetime counters and the text of the synthetic metrics file.
//!
//! All counters are monotonic and saturate at `u64::MAX` instead of
//! wrapping; the spec functions `with_*` say exactly which counters each
//! event moves.
use vstd::prelude::*;
use vstd::string::StringExecFns;
use crate::text::{append_dec, dec_str};

verus! {

/// The counter block. One instance lives in the engine; the metrics file
/// renders a snapshot of it.
#[derive(Clone, Copy, Debug, PartialEq, Eq, Structural)]
pub struct Metrics {
    pub http_requests: u64,
    pub connect_errors: u64,
    pub ingress: u64,
    pub hit_len_cache: u64,
    pub hit_data_cache: u64,
    pub miss_len_cache: u64,
    pub miss_data_cache: u64,
}

/// `c + 1`, saturating at `u64::MAX`.
pub open spec fn bump(c: u64) -> u64 {
    if c == u64::MAX {
        c
    } else {
        (c + 1) as u64
    }
}

/// `c + d`, saturating at `u64::MAX`.
pub open spec fn bump_by(c: u64, d: nat) -> u64 {
    if c + d > u64::MAX {
        u64::MAX
    } else {
        (c + d) as u64
    }
}

impl Metrics {
    /// All counters at zero.
    pub open spec fn zero() -> Metrics {
        Metrics {
            http_requests: 0,
            connect_errors: 0,
            ingress: 0,
            hit_len_cache: 0,
            hit_data_cache: 0,
            miss_len_cache: 0,
            miss_data_cache: 0,
        }
    }

    /// After a length-cache hit.
    pub open spec fn with_len_hit(self) -> Metrics {
        Metrics { hit_len_cache: bump(self.hit_len_cache), ..self }
    }

    /// After a length-cache miss: a HEAD request goes out.
    pub open spec fn with_len_miss(self) -> Metrics {
        Metrics {
            miss_len_cache: bump(self.miss_len_cache),
            http_requests: bump(self.http_requests),
            ..self
        }
    }

    /// After a head-cache hit.
    pub open spec fn with_data_hit(self) -> Metrics {
        Metrics { hit_data_cache: bump(self.hit_data_cache), ..self }
    }

    /// After a head-cache miss: a prefix GET goes out.
    pub open spec fn with_data_miss(self) -> Metrics {
        Metrics {
            miss_data_cache: bump(self.miss_data_cache),
            http_requests: bump(self.http_requests),
            ..self
        }
    }

    /// After a tail-regime GET goes out.
    pub open spec fn with_tail_request(self) -> Metrics {
        Metrics { http_requests: bump(self.http_requests), ..self }
    }

    /// After a transport failure.
    pub open spec fn with_transport_error(self) -> Metrics {
        Metrics { connect_errors: bump(self.connect_errors), ..self }
    }

    /// After `n` bytes arrived from the backend.
    pub open spec fn with_ingress(self, n: nat) -> Metrics {
        Metrics { ingress: bump_by(self.ingress, n), ..self }
    }

    /// Fresh counter block, all zero.
    pub fn new() -> (r: Metrics)
        ensures
            r == Metrics::zero(),
    {
        Metrics {
            http_requests: 0,
            connect_errors: 0,
            ingress: 0,
            hit_len_cache: 0,
            hit_data_cache: 0,
            miss_len_cache: 0,
            miss_data_cache: 0,
        }
    }

    pub fn len_hit(&mut self)
        ensures
            *final(self) == old(self).with_len_hit(),
    {
        self.hit_len_cache = self.hit_len_cache.saturating_add(1);
    }

    pub fn len_miss(&mut self)
        ensures
            *final(self) == old(self).with_len_miss(),
    {
        self.miss_len_cache = self.miss_len_cache.saturating_add(1);
        self.http_requests = self.http_requests.saturating_add(1);
    }

    pub fn data_hit(&mut self)
        ensures
            *final(self) == old(self).with_data_hit(),
    {
        self.hit_data_cache = self.hit_data_cache.saturating_add(1);
    }

    pub fn data_miss(&mut self)
        ensures
            *final(self) == old(self).with_data_miss(),
    {
        self.miss_data_cache = self.miss_data_cache.saturating_add(1);
        self.http_requests = self.http_requests.saturating_add(1);
    }

    pub fn tail_request(&mut self)
        ensures
            *final(self) == old(self).with_tail_request(),
    {
        self.http_requests = self.http_requests.saturating_add(1);
    }

    pub fn transport_error(&mut self)
        ensures
            *final(self) == old(self).with_transport_error(),
    {
        self.connect_errors = self.connect_errors.saturating_add(1);
    }

    pub fn add_ingress(&mut self, n: u64)
        ensures
            *final(self) == old(self).with_ingress(n as nat),
    {
        self.ingress = self.ingress.saturating_add(n);
    }
}

/// The contents of the metrics file: eight `key: value` lines, the seven
/// counters in a fixed order followed by the server address.
pub open spec fn metrics_text(m: Metrics, server: Seq<char>) -> Seq<char> {
    "http_requests: "@ + dec_str(m.http_requests as nat) + "\n"@ + "connect_errors: "@ + dec_str(
        m.connect_errors as nat,
    ) + "\n"@ + "ingress: "@ + dec_str(m.ingress as nat) + "\n"@ + "hit_len_cache: "@ + dec_str(
        m.hit_len_cache as nat,
    ) + "\n"@ + "hit_data_cache: "@ + dec_str(m.hit_data_cache as nat) + "\n"@
        + "miss_len_cache: "@ + dec_str(m.miss_len_cache as nat) + "\n"@ + "miss_data_cache: "@
        + dec_str(m.miss_data_cache as nat) + "\n"@ + "server_addr: "@ + server + "\n"@
}

/// Renders the metrics snapshot as the text the metrics file serves.
pub fn render_metrics(m: &Metrics, server: &str) -> (r: String)
    ensures
        r@ == metrics_text(*m, server@),
{
    let mut s = String::new();
    s.append("http_requests: ");
    append_dec(&mut s, m.http_requests);
    s.append("\n");
    s.append("connect_errors: ");
    append_dec(&mut s, m.connect_errors);
    s.append("\n");
    s.append("ingress: ");
    append_dec(&mut s, m.ingress);
    s.append("\n");
    s.append("hit_len_cache: ");
    append_dec(&mut s, m.hit_len_cache);
    s.append("\n");
    s.append("hit_data_cache: ");
    append_dec(&mut s, m.hit_data_cache);
    s.append("\n");
    s.append("miss_len_cache: ");
    append_dec(&mut s, m.miss_len_cache);
    s.append("\n");
    s.append("miss_data_cache: ");
    append_dec(&mut s, m.miss_data_cache);
    s.append("\n");
    s.append("server_addr: ");
    s.append(server);
    s.append("\n");
    assert(s@ =~= metrics_text(*m, server@));
    s
}

} // verus!
