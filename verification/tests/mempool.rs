use rdpdk::mempool::{MBuffMempoolHandle, NumaSocketId, SOCKET_ID_ANY};

#[test]
fn pool_description_starts_plain() {
    let pool = MBuffMempoolHandle::new("Rx echo pool", 1024);
    assert_eq!(pool.name(), "Rx echo pool");
    assert_eq!(pool.capacity(), 1024);
    assert_eq!(pool.sizes(), (0, 0, 0, SOCKET_ID_ANY));
    assert_eq!(SOCKET_ID_ANY, -1);
}

#[test]
fn pool_description_is_built_step_by_step() {
    let mut pool = MBuffMempoolHandle::new("pool", 64);
    pool.cache_size(32).priv_size(8).data_root_size(2176).socket(1);
    assert_eq!(pool.sizes(), (32, 8, 2176, 1));
    pool.socket(SOCKET_ID_ANY);
    assert_eq!(pool.sizes(), (32, 8, 2176, -1));
    pool.cache_size(0);
    assert_eq!(pool.sizes(), (0, 8, 2176, -1));
    assert_eq!(pool.name(), "pool");
    assert_eq!(pool.capacity(), 64);
}

#[test]
fn memory_nodes_differ() {
    assert_ne!(NumaSocketId::NumaSocketIdAny, NumaSocketId::NumaSocketIdPort(0));
    assert_ne!(NumaSocketId::NumaSocketIdPort(0), NumaSocketId::NumaSocketIdLCore(0));
    assert_eq!(NumaSocketId::NumaSocketIdPort(3), NumaSocketId::NumaSocketIdPort(3));
}
