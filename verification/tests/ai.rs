use base64::Engine;
use search_demo::ai::embeddings::VectorApi;
use search_demo::ai::{clip_image_input, generate_endpoint, CLIPInput};
use search_demo::ai::image_to_prompt::{image_to_base64, prompt_request};
use search_demo::ai::translation::{translation_prompt, translation_request};

#[test]
fn base64_of_bytes() {
    assert_eq!(image_to_base64(b"Man"), "TWFu");
    assert_eq!(image_to_base64(b"Ma"), "TWE=");
    assert_eq!(image_to_base64(b"M"), "TQ==");
    assert_eq!(image_to_base64(b""), "");
    assert_eq!(image_to_base64(&[0xfb, 0xff, 0xbf]), "+/+/");
}

fn tiny_png() -> Vec<u8> {
    let img = image::RgbImage::from_pixel(2, 1, image::Rgb([10, 20, 30]));
    let mut out = Vec::new();
    image::DynamicImage::ImageRgb8(img)
        .write_to(&mut std::io::Cursor::new(&mut out), image::ImageFormat::Png)
        .unwrap();
    out
}

#[test]
fn prompt_request_carries_the_image_as_png() {
    let req = prompt_request(&tiny_png()).unwrap();
    assert_eq!(req.model, "llava");
    assert_eq!(req.prompt, "What is in this picture?");
    assert!(!req.stream);
    assert_eq!(req.images.len(), 1);
    let png = base64::engine::general_purpose::STANDARD.decode(&req.images[0]).unwrap();
    assert_eq!(&png[..4], b"\x89PNG");
    let decoded = image::load_from_memory(&png).unwrap().to_rgb8();
    assert_eq!(decoded.get_pixel(1, 0), &image::Rgb([10, 20, 30]));
}

#[test]
fn prompt_request_refuses_what_is_not_an_image() {
    assert!(prompt_request(b"definitely not an image").is_none());
}

#[test]
fn translation_prompt_text() {
    let p = translation_prompt("你好");
    assert!(p.starts_with("Please translate user input into English.\n            Please response"));
    assert!(p.ends_with("```\n            你好\n            ```"));
    let r = translation_request("什么是 gpt");
    assert_eq!(r.model, "qwen2:7b-instruct-q4_0");
    assert!(!r.stream);
    assert!(r.prompt.contains("\n            什么是 gpt\n"));
}

#[test]
fn service_endpoints() {
    assert_eq!(generate_endpoint("http://localhost:11434"), "http://localhost:11434/api/generate");
    let api = VectorApi::new("http://localhost:8080".to_string());
    assert_eq!(api.image_to_vector_url(), "http://localhost:8080/image_to_vector");
    assert_eq!(api.text_to_vector_url(), "http://localhost:8080/text_to_vector");
}

#[test]
fn clip_image_input_decodes_rgb_pixels() {
    let mut img = image::RgbImage::new(2, 1);
    img.put_pixel(0, 0, image::Rgb([10, 20, 30]));
    img.put_pixel(1, 0, image::Rgb([40, 50, 60]));
    let mut png: Vec<u8> = Vec::new();
    img.write_to(&mut std::io::Cursor::new(&mut png), image::ImageFormat::Png).unwrap();
    match clip_image_input(&png) {
        Some(CLIPInput::Image { width, height, pixels }) => {
            assert_eq!((width, height), (2, 1));
            assert_eq!(pixels, vec![10, 20, 30, 40, 50, 60]);
        }
        _ => panic!("the image should decode"),
    }
    assert!(clip_image_input(b"not an image").is_none());
}
