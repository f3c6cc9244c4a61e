use chamap::cha;
use chamap::cha::{Key, IV};
use chamap::stream::Sink;

const INPUT: &'static str = "Hello world!";

fn enc_stream(input: impl AsRef<[u8]>, key: Key, iv: IV) -> Sink {
    let enc_buffer = Vec::new();
    let input = input.as_ref();

    let mut stream = Sink::encrypt(enc_buffer, key, iv).expect("sink::enc");
    assert_eq!(stream.write(input).unwrap(), input.len());
    stream.flush().unwrap();

    stream
}

#[test]
fn enc() {
    let (key, iv) = cha::keygen();

    println!("Sink ends: {:?}", enc_stream(INPUT.as_bytes(), key, iv).inner());
}

#[test]
fn dec() {
    let (key, iv) = cha::keygen();
    println!("Input unencrypted: {:?}", INPUT);

    let input = enc_stream(INPUT.as_bytes(), key.clone(), iv.clone()).into_inner();

    let mut stream = Sink::decrypt(Vec::new(), key, iv).expect("sink::dec");
    stream.write_all(&input[..]).unwrap();
    stream.flush().unwrap();

    println!("Output decrypted: {:?}", stream.inner());
    let dec_buffer = stream.into_inner();
    assert_eq!(&dec_buffer[..], INPUT.as_bytes());
}

#[test]
fn sink_write_reports_full_length() {
    let (key, iv) = cha::keygen();
    let mut stream = Sink::encrypt(Vec::new(), key, iv).unwrap();
    assert_eq!(stream.write(b"abc").unwrap(), 3);
    assert_eq!(stream.write(b"").unwrap(), 0);
    assert_eq!(stream.inner().len(), 3);
}

#[test]
fn sink_transforms_what_it_writes() {
    // A sink that quietly passed bytes through untransformed would decrypt
    // under any key; a real cipher must not.
    let (key, iv) = cha::keygen();
    let data = vec![7u8; 64];
    let enc = enc_stream(&data, key, iv).into_inner();
    assert_eq!(enc.len(), 64);

    let (wrong_key, wrong_iv) = cha::keygen();
    let mut stream = Sink::decrypt(Vec::new(), wrong_key, wrong_iv).expect("sink::dec");
    stream.write_all(&enc[..]).unwrap();
    assert_ne!(stream.into_inner(), data);
}

#[test]
fn sink_into_parts_keeps_stream() {
    let (key, iv) = cha::keygen();
    let mut stream = Sink::encrypt(Vec::new(), key, iv).unwrap();
    stream.write_all(b"four").unwrap();
    let (bytes, _crypter) = stream.into_parts();
    assert_eq!(bytes.len(), 4);
}

#[test]
fn keygen_keys_differ() {
    let (k1, _) = cha::keygen();
    let (k2, _) = cha::keygen();
    assert_ne!(chamap::key::key_to_base64(&k1), chamap::key::key_to_base64(&k2));
}
