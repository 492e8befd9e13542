//! The two jars, operation by operation.

use ralc::cookie::cell::{CellDecr, CellJar, CellZero};
use ralc::cookie::lock::LockJar;
use ralc::cookie::{CookieJar, ReadCookie, WriteCookie};
use ralc::ledgers::silo::SiloedLedger;

fn readers_and_writer_exclude_each_other<J: CookieJar>() {
    let mut jar = J::new();
    assert_eq!(jar.count(), 0);

    let first = jar.try_read().expect("an idle jar grants a read");
    let second = jar.try_read().expect("readers share");
    assert_eq!(jar.count(), 2);
    assert!(jar.try_write().is_none());
    assert!(jar.write().is_none());
    assert_eq!(jar.count(), 2);

    jar.release_read(first);
    jar.release_read(second);
    assert_eq!(jar.count(), 0);

    let writer = jar.try_write().expect("an idle jar grants a write");
    assert_eq!(jar.count(), u32::MAX);
    assert!(jar.try_read().is_none());
    assert!(jar.read().is_none());
    assert!(jar.try_write().is_none());
    assert_eq!(jar.count(), u32::MAX);

    jar.release_write(writer);
    assert_eq!(jar.count(), 0);
}

fn upgrade_is_all_or_nothing<J: CookieJar>() {
    let mut jar = J::new();
    let first = jar.read().unwrap();
    let second = jar.clone_read(&first);
    assert_eq!(jar.count(), 2);

    let first = match jar.try_upgrade(first) {
        Ok(_) => panic!("upgraded beside another reader"),
        Err(cookie) => cookie,
    };
    assert_eq!(jar.count(), 2);

    jar.release_read(second);
    assert_eq!(jar.count(), 1);
    let writer = match jar.try_upgrade(first) {
        Ok(cookie) => cookie,
        Err(_) => panic!("the only reader was refused"),
    };
    assert_eq!(jar.count(), u32::MAX);

    let reader = jar.downgrade(writer);
    assert_eq!(jar.count(), 1);
    jar.release_read(reader);
    assert_eq!(jar.count(), 0);
}

#[test]
fn cell_jar_excludes() {
    readers_and_writer_exclude_each_other::<CellJar>();
}

#[test]
fn lock_jar_excludes() {
    readers_and_writer_exclude_each_other::<LockJar>();
}

#[test]
fn cell_jar_upgrade() {
    upgrade_is_all_or_nothing::<CellJar>();
}

#[test]
fn lock_jar_upgrade() {
    upgrade_is_all_or_nothing::<LockJar>();
}

#[test]
fn cell_cookies_act_on_their_jar() {
    let mut jar = CellJar::new();
    let reader = jar.try_read().unwrap();
    let copy = reader.duplicate(&mut jar);
    assert_eq!(jar.count(), 2);
    let reader = match reader.try_upgrade(&mut jar) {
        Ok(_) => panic!("upgraded beside another reader"),
        Err(cookie) => cookie,
    };
    copy.release(&mut jar);
    let writer = reader.try_upgrade(&mut jar).ok().expect("the only reader upgrades");
    assert_eq!(jar.count(), u32::MAX);
    let reader = writer.downgrade(&mut jar);
    assert_eq!(jar.count(), 1);
    let writer = reader.try_upgrade(&mut jar).ok().unwrap();
    writer.release(&mut jar);
    assert_eq!(jar.count(), 0);
}

#[test]
fn lock_cookies_act_on_their_jar() {
    let mut jar = LockJar::new();
    let reader = jar.try_read().unwrap();
    let copy = reader.duplicate(&mut jar);
    assert_eq!(jar.count(), 2);
    copy.release(&mut jar);
    let writer = reader.try_upgrade(&mut jar).ok().expect("the only reader upgrades");
    assert_eq!(jar.count(), u32::MAX);
    let reader = writer.downgrade(&mut jar);
    reader.release(&mut jar);
    assert_eq!(jar.count(), 0);
}

// `probe` can be named without saying which of the two impls is meant only
// where the second one does not apply: where the type is not `Send`.
trait UnlessSend<Which> {
    fn probe() {}
}

impl<T: ?Sized> UnlessSend<()> for T {}

impl<T: ?Sized + Send> UnlessSend<u8> for T {}

// The same for `Sync`.
trait UnlessSync<Which> {
    fn probe() {}
}

impl<T: ?Sized> UnlessSync<()> for T {}

impl<T: ?Sized + Sync> UnlessSync<u8> for T {}

#[test]
fn marker_trait_impls() {
    let _ = <CellDecr as UnlessSend<_>>::probe;
    let _ = <CellZero as UnlessSend<_>>::probe;
    let _ = <CellDecr as UnlessSync<_>>::probe;
    let _ = <CellZero as UnlessSync<_>>::probe;
}

#[test]
fn silo_send_sync() {
    let _ = <SiloedLedger as UnlessSync<_>>::probe;
}
