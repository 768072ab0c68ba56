//! The description of a pool of packet buffers, before the pool is made.

use vstd::prelude::*;

verus! {

/// The socket id that leaves the choice of the memory node open.
pub const SOCKET_ID_ANY: i32 = -1;

/// The memory node that something is made on.
#[derive(Clone, Copy, Debug, PartialEq, Eq, Structural)]
pub enum NumaSocketId {
    /// Any node.
    NumaSocketIdAny,
    /// The node of a port.
    NumaSocketIdPort(u16),
    /// The node of a core.
    NumaSocketIdLCore(u32),
}

/// What the description of a pool holds.
pub struct MempoolModel {
    pub name: Seq<char>,
    pub capacity: u32,
    pub priv_size: u16,
    pub data_root_size: u16,
    pub cache_size: u32,
    pub socket: i32,
}

/// What a pool of packet buffers is made from.
#[derive(Clone, Debug)]
pub struct MBuffMempoolHandle {
    name: String,
    capacity: u32,
    priv_size: u16,
    data_root_size: u16,
    cache_size: u32,
    socket: i32,
}

impl View for MBuffMempoolHandle {
    type V = MempoolModel;

    closed spec fn view(&self) -> MempoolModel {
        MempoolModel {
            name: self.name@,
            capacity: self.capacity,
            priv_size: self.priv_size,
            data_root_size: self.data_root_size,
            cache_size: self.cache_size,
            socket: self.socket,
        }
    }
}

impl MBuffMempoolHandle {
    /// The description of a pool of `capacity` buffers with the name `name`,
    /// on any memory node, without cache, private area or data room.
    pub fn new(name: &str, capacity: u32) -> (r: Self)
        ensures
            r@ == (MempoolModel {
                name: name@,
                capacity,
                priv_size: 0,
                data_root_size: 0,
                cache_size: 0,
                socket: SOCKET_ID_ANY,
            }),
    {
        MBuffMempoolHandle {
            name: name.to_owned(),
            capacity,
            priv_size: 0,
            data_root_size: 0,
            cache_size: 0,
            socket: SOCKET_ID_ANY,
        }
    }

    /// Sets the size of the cache of each core.
    pub fn cache_size(&mut self, cs: u32) -> (r: &mut Self)
        ensures
            r@ == (MempoolModel { cache_size: cs, ..old(self)@ }),
            *final(self) == *final(r),
    {
        self.cache_size = cs;
        self
    }

    /// Sets the size of the private area of each buffer.
    pub fn priv_size(&mut self, ps: u16) -> (r: &mut Self)
        ensures
            r@ == (MempoolModel { priv_size: ps, ..old(self)@ }),
            *final(self) == *final(r),
    {
        self.priv_size = ps;
        self
    }

    /// Sets the size of the data room of each buffer.
    pub fn data_root_size(&mut self, drs: u16) -> (r: &mut Self)
        ensures
            r@ == (MempoolModel { data_root_size: drs, ..old(self)@ }),
            *final(self) == *final(r),
    {
        self.data_root_size = drs;
        self
    }

    /// Sets the socket id of the memory node.
    pub fn socket(&mut self, s: i32) -> (r: &mut Self)
        ensures
            r@ == (MempoolModel { socket: s, ..old(self)@ }),
            *final(self) == *final(r),
    {
        self.socket = s;
        self
    }

    /// The name of the pool.
    pub fn name(&self) -> (r: &str)
        ensures
            r@ == self@.name,
    {
        self.name.as_str()
    }

    /// The number of buffers.
    pub fn capacity(&self) -> (r: u32)
        ensures
            r == self@.capacity,
    {
        self.capacity
    }

    /// The sizes of the cache, the private area and the data room, and the
    /// socket id, in this order.
    pub fn sizes(&self) -> (r: (u32, u16, u16, i32))
        ensures
            r == (self@.cache_size, self@.priv_size, self@.data_root_size, self@.socket),
    {
        (self.cache_size, self.priv_size, self.data_root_size, self.socket)
    }
}

} // verus!
