use mnemo::services::model_loader::cache_files;
use mnemo::services::model_loader::download_url;
use mnemo::services::model_loader::is_redirect;
use mnemo::services::model_loader::legacy_repo_dir;
use mnemo::services::model_loader::next_hop;
use mnemo::services::model_loader::resolve_redirect;
use mnemo::services::model_loader::RedirectError;

#[test]
fn resolves_hugging_face_relative_redirects() {
    assert_eq!(
        resolve_redirect(
            "https://huggingface.co/Xenova/bge-small-en-v1.5/resolve/main/tokenizer.json",
            "/api/resolve-cache/models/Xenova/bge-small-en-v1.5/revision/tokenizer.json",
        )
        .unwrap(),
        "https://huggingface.co/api/resolve-cache/models/Xenova/bge-small-en-v1.5/revision/tokenizer.json",
    );
}

#[test]
fn redirects_absolute_relative_and_invalid() {
    assert_eq!(
        resolve_redirect("https://a.com/x/y", "http://b.com/z").unwrap(),
        "http://b.com/z"
    );
    assert_eq!(
        resolve_redirect("https://a.com/x/y", "z.json").unwrap(),
        "https://a.com/x/z.json"
    );
    assert_eq!(
        resolve_redirect("nowhere", "z.json"),
        Err(RedirectError::InvalidBase)
    );
    assert_eq!(RedirectError::InvalidBase.message(), "Invalid redirect base URL");
}

#[test]
fn redirect_hops() {
    assert!(is_redirect(307));
    assert!(!is_redirect(200));
    assert!(!is_redirect(400));
    assert_eq!(next_hop("https://a.com/x", 200, None), Ok(None));
    assert_eq!(
        next_hop("https://a.com/x", 302, None),
        Err(RedirectError::MissingLocation)
    );
    assert_eq!(
        next_hop("https://a.com/x", 302, Some("/y")),
        Ok(Some("https://huggingface.co/y".to_string()))
    );
}

#[test]
fn model_file_locations() {
    assert_eq!(
        download_url("Xenova/bge-small-en-v1.5", "onnx/model.onnx"),
        "https://huggingface.co/Xenova/bge-small-en-v1.5/resolve/main/onnx/model.onnx"
    );
    assert_eq!(
        legacy_repo_dir("Xenova/bge-small-en-v1.5"),
        "models--Xenova--bge-small-en-v1.5"
    );
    assert_eq!(
        cache_files("onnx/model.onnx"),
        vec![
            "onnx/model.onnx",
            "tokenizer.json",
            "config.json",
            "special_tokens_map.json",
            "tokenizer_config.json"
        ]
    );
}

#[test]
fn redirect_error_messages() {
    assert_eq!(
        RedirectError::MissingLocation.message(),
        "Model download redirect has no Location header"
    );
    assert_eq!(
        RedirectError::TooManyRedirects.message(),
        "Model download exceeded 8 redirects"
    );
}
