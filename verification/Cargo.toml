[package]
name = "dicom_anon"
version = "0.1.0"
edition = "2021"
publish = false

[dependencies]
dicom = "*"
evalexpr = "*"
gethostname = "*"
num = "*"
rayon = "*"
walkdir = "*"
