//! The key spaces of the store do not meet: no key of one kind of state
//! is a key of another.

use crate::ban::ban_key_of;
use crate::maze::maze_key_of;
use crate::metrics::{metric_key_of, MetricName};
use crate::rate::rate_key_of;
use vstd::prelude::*;

verus! {

/// A ban key is no rate key, no counter key and no maze key.
pub proof fn lemma_ban_key_apart(
    site: Seq<char>,
    ip: Seq<char>,
    other_site: Seq<char>,
    other_ip: Seq<char>,
    metric: MetricName,
    label: Option<Seq<char>>,
)
    ensures
        ban_key_of(site, ip) != rate_key_of(other_site, other_ip),
        ban_key_of(site, ip) != metric_key_of(metric, label),
        ban_key_of(site, ip) != maze_key_of(other_ip),
{
    assert(ban_key_of(site, ip)[0] == 'b');
    assert(rate_key_of(other_site, other_ip)[0] == 'r');
    assert(metric_key_of(metric, label)[0] == 'm');
    assert(maze_key_of(other_ip)[0] == 'm');
}

/// A rate key is no counter key and no maze key.
pub proof fn lemma_rate_key_apart(
    site: Seq<char>,
    ip: Seq<char>,
    other_ip: Seq<char>,
    metric: MetricName,
    label: Option<Seq<char>>,
)
    ensures
        rate_key_of(site, ip) != metric_key_of(metric, label),
        rate_key_of(site, ip) != maze_key_of(other_ip),
{
    assert(rate_key_of(site, ip)[0] == 'r');
    assert(metric_key_of(metric, label)[0] == 'm');
    assert(maze_key_of(other_ip)[0] == 'm');
}

/// A maze key is no counter key.
pub proof fn lemma_maze_key_apart(ip: Seq<char>, metric: MetricName, label: Option<Seq<char>>)
    ensures
        maze_key_of(ip) != metric_key_of(metric, label),
{
    assert(maze_key_of(ip)[1] == 'a');
    assert(metric_key_of(metric, label)[1] == 'e');
}

} // verus!
