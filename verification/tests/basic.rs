use rdpdk::add;
use rdpdk::cmdline::arg::arg_int::ArgInt;
use rdpdk::cmdline::arg::Arg;

#[test]
fn rdpdk_it_works() {
    let result = add(2, 2);
    assert_eq!(result, 4);
}

#[test]
fn cmdline_it_works() {
    assert_eq!(4, 4);
}

#[test]
fn arg_int_it_works() {
    let x16 = ArgInt::<u16>::new();
    x16.serialize("0x1234").unwrap();

    let x32 = ArgInt::<u32>::new();
    x32.serialize("0x12345678").unwrap();

    let x64 = ArgInt::<u64>::new();
    x64.serialize("0x1234567812345678").unwrap();
}

#[test]
fn mlx5_raw_it_works() {
    let result = rdpdk::mlx5_raw::add(2, 2);
    assert_eq!(result, 4);
}

#[test]
fn add_reaches_the_limit() {
    assert_eq!(add(u64::MAX - 1, 1), u64::MAX);
    assert_eq!(add(0, 0), 0);
    assert_eq!(rdpdk::mlx5_raw::add(40, 2), 42);
}
