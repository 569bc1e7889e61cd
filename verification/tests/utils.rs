use mui::utils::{init, init_boxed, try_init, try_init_ary, try_init_boxed, try_init_slice};
use mui::InitErr;
use std::convert::Infallible;

#[derive(Debug, PartialEq)]
struct Hoge {
    title: String,
    list: Vec<u32>,
}

#[derive(Debug, PartialEq)]
struct SomeErr;

#[derive(Debug, PartialEq)]
struct OverThousand;

fn checked_expn(num: u32, exp: u32) -> Result<u32, OverThousand> {
    let ret = num.pow(exp);
    if ret <= 1_000 {
        Ok(ret)
    } else {
        Err(OverThousand)
    }
}

fn try_from_fn<T, E, const N: usize>(mut f: impl FnMut(usize) -> Result<T, E>) -> Result<[T; N], E> {
    try_init_ary(|mui| {
        for (i, elm) in mui.iter_mut().enumerate() {
            elm.write(f(i)?);
        }
        Ok(())
    })
}

#[test]
fn init_basic() {
    let data = init(|guard| {
        guard.write(42);
    });
    assert_eq!(data, 42);
}

#[test]
fn init_struct() {
    let hoge = init::<Hoge>(|guard| {
        guard.write(Hoge { title: "hoge".to_string(), list: vec![810, 114514, 1919] });
    });
    assert_eq!(hoge, Hoge { title: "hoge".to_string(), list: vec![810, 114514, 1919] });
}

#[test]
fn init_boxed_basic() {
    let b = init_boxed(|guard| {
        guard.write(String::from("boxed"));
    });
    assert_eq!(*b, "boxed");
}

#[test]
fn try_init_ok() {
    let r: Result<u32, SomeErr> = try_init(|guard| {
        guard.write(5);
        Ok(())
    });
    assert_eq!(r, Ok(5));
}

#[test]
fn try_init_err() {
    let r: Result<u32, SomeErr> = try_init(|guard| {
        guard.write(5);
        Err(SomeErr)
    });
    assert_eq!(r, Err(SomeErr));
}

#[test]
fn try_init_boxed_ok_and_err() {
    let ok: Result<Box<u32>, SomeErr> = try_init_boxed(|guard| {
        guard.write(8);
        Ok(())
    });
    assert_eq!(ok, Ok(Box::new(8)));
    let err: Result<Box<u32>, SomeErr> = try_init_boxed(|_| Err(SomeErr));
    assert_eq!(err, Err(SomeErr));
}

#[test]
fn try_init_ary_from_fn() {
    let arr1: Result<[usize; 5], Infallible> = try_from_fn(|i| Ok(i * i));
    let arr2: Result<[usize; 5], SomeErr> = try_from_fn(|_| Err(SomeErr));
    assert_eq!(arr1, Ok([0, 1, 4, 9, 16]));
    assert_eq!(arr2, Err(SomeErr));
}

#[test]
fn try_init_slice_checked_expn() {
    let arr1 = try_init_slice::<_, OverThousand>(6, |muis| {
        for (i, elm) in muis.iter_mut().enumerate() {
            elm.write(checked_expn((i + 1) as u32, 3)?);
        }
        Ok(())
    });
    let arr2 = try_init_slice(6, |muis| {
        for (i, elm) in muis.iter_mut().enumerate() {
            elm.write(checked_expn((i + 1) as u32, 4)?);
        }
        Ok(())
    });
    assert_eq!(arr1, Ok(vec![1, 8, 27, 64, 125, 216].into_boxed_slice()));
    assert_eq!(arr2, Err(OverThousand));
}

#[test]
fn try_init_slice_empty_does_not_call() {
    let r: Result<Box<[u32]>, SomeErr> = try_init_slice(0, |_| panic!("not called"));
    assert_eq!(r, Ok(Vec::new().into_boxed_slice()));
}

#[test]
fn unwrap_init_err_gives_inner() {
    let e: InitErr<u8> = InitErr::ErrOnInit(3);
    assert_eq!(e.unwrap_init_err(), 3);
}

#[test]
fn init_err_messages() {
    let e: InitErr<u8> = InitErr::ErrOnInit(3);
    assert_eq!(e.message("3"), "An error was returned during initialization: 3");
    let n: InitErr<u8> = InitErr::NotInited;
    assert_eq!(n.message(""), "The value was not initialized in the initiator");
}
