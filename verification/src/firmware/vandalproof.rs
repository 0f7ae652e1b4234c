//! VandalProof packages: AES-128 in CBC mode with PKCS#7 padding, the IV in
//! the first 16 bytes, under a fixed key.

use crate::firmware::encryption::lemma_xor_twice;
use vstd::prelude::*;

verus! {

/// The AES S-box.
pub open spec fn sbox(x: u8) -> u8 {
    match x {
        0 => 0x63u8, 1 => 0x7c, 2 => 0x77, 3 => 0x7b, 4 => 0xf2, 5 => 0x6b, 6 => 0x6f, 7 => 0xc5,
        8 => 0x30, 9 => 0x01, 10 => 0x67, 11 => 0x2b, 12 => 0xfe, 13 => 0xd7, 14 => 0xab, 15 => 0x76,
        16 => 0xca, 17 => 0x82, 18 => 0xc9, 19 => 0x7d, 20 => 0xfa, 21 => 0x59, 22 => 0x47, 23 => 0xf0,
        24 => 0xad, 25 => 0xd4, 26 => 0xa2, 27 => 0xaf, 28 => 0x9c, 29 => 0xa4, 30 => 0x72, 31 => 0xc0,
        32 => 0xb7, 33 => 0xfd, 34 => 0x93, 35 => 0x26, 36 => 0x36, 37 => 0x3f, 38 => 0xf7, 39 => 0xcc,
        40 => 0x34, 41 => 0xa5, 42 => 0xe5, 43 => 0xf1, 44 => 0x71, 45 => 0xd8, 46 => 0x31, 47 => 0x15,
        48 => 0x04, 49 => 0xc7, 50 => 0x23, 51 => 0xc3, 52 => 0x18, 53 => 0x96, 54 => 0x05, 55 => 0x9a,
        56 => 0x07, 57 => 0x12, 58 => 0x80, 59 => 0xe2, 60 => 0xeb, 61 => 0x27, 62 => 0xb2, 63 => 0x75,
        64 => 0x09, 65 => 0x83, 66 => 0x2c, 67 => 0x1a, 68 => 0x1b, 69 => 0x6e, 70 => 0x5a, 71 => 0xa0,
        72 => 0x52, 73 => 0x3b, 74 => 0xd6, 75 => 0xb3, 76 => 0x29, 77 => 0xe3, 78 => 0x2f, 79 => 0x84,
        80 => 0x53, 81 => 0xd1, 82 => 0x00, 83 => 0xed, 84 => 0x20, 85 => 0xfc, 86 => 0xb1, 87 => 0x5b,
        88 => 0x6a, 89 => 0xcb, 90 => 0xbe, 91 => 0x39, 92 => 0x4a, 93 => 0x4c, 94 => 0x58, 95 => 0xcf,
        96 => 0xd0, 97 => 0xef, 98 => 0xaa, 99 => 0xfb, 100 => 0x43, 101 => 0x4d, 102 => 0x33, 103 => 0x85,
        104 => 0x45, 105 => 0xf9, 106 => 0x02, 107 => 0x7f, 108 => 0x50, 109 => 0x3c, 110 => 0x9f, 111 => 0xa8,
        112 => 0x51, 113 => 0xa3, 114 => 0x40, 115 => 0x8f, 116 => 0x92, 117 => 0x9d, 118 => 0x38, 119 => 0xf5,
        120 => 0xbc, 121 => 0xb6, 122 => 0xda, 123 => 0x21, 124 => 0x10, 125 => 0xff, 126 => 0xf3, 127 => 0xd2,
        128 => 0xcd, 129 => 0x0c, 130 => 0x13, 131 => 0xec, 132 => 0x5f, 133 => 0x97, 134 => 0x44, 135 => 0x17,
        136 => 0xc4, 137 => 0xa7, 138 => 0x7e, 139 => 0x3d, 140 => 0x64, 141 => 0x5d, 142 => 0x19, 143 => 0x73,
        144 => 0x60, 145 => 0x81, 146 => 0x4f, 147 => 0xdc, 148 => 0x22, 149 => 0x2a, 150 => 0x90, 151 => 0x88,
        152 => 0x46, 153 => 0xee, 154 => 0xb8, 155 => 0x14, 156 => 0xde, 157 => 0x5e, 158 => 0x0b, 159 => 0xdb,
        160 => 0xe0, 161 => 0x32, 162 => 0x3a, 163 => 0x0a, 164 => 0x49, 165 => 0x06, 166 => 0x24, 167 => 0x5c,
        168 => 0xc2, 169 => 0xd3, 170 => 0xac, 171 => 0x62, 172 => 0x91, 173 => 0x95, 174 => 0xe4, 175 => 0x79,
        176 => 0xe7, 177 => 0xc8, 178 => 0x37, 179 => 0x6d, 180 => 0x8d, 181 => 0xd5, 182 => 0x4e, 183 => 0xa9,
        184 => 0x6c, 185 => 0x56, 186 => 0xf4, 187 => 0xea, 188 => 0x65, 189 => 0x7a, 190 => 0xae, 191 => 0x08,
        192 => 0xba, 193 => 0x78, 194 => 0x25, 195 => 0x2e, 196 => 0x1c, 197 => 0xa6, 198 => 0xb4, 199 => 0xc6,
        200 => 0xe8, 201 => 0xdd, 202 => 0x74, 203 => 0x1f, 204 => 0x4b, 205 => 0xbd, 206 => 0x8b, 207 => 0x8a,
        208 => 0x70, 209 => 0x3e, 210 => 0xb5, 211 => 0x66, 212 => 0x48, 213 => 0x03, 214 => 0xf6, 215 => 0x0e,
        216 => 0x61, 217 => 0x35, 218 => 0x57, 219 => 0xb9, 220 => 0x86, 221 => 0xc1, 222 => 0x1d, 223 => 0x9e,
        224 => 0xe1, 225 => 0xf8, 226 => 0x98, 227 => 0x11, 228 => 0x69, 229 => 0xd9, 230 => 0x8e, 231 => 0x94,
        232 => 0x9b, 233 => 0x1e, 234 => 0x87, 235 => 0xe9, 236 => 0xce, 237 => 0x55, 238 => 0x28, 239 => 0xdf,
        240 => 0x8c, 241 => 0xa1, 242 => 0x89, 243 => 0x0d, 244 => 0xbf, 245 => 0xe6, 246 => 0x42, 247 => 0x68,
        248 => 0x41, 249 => 0x99, 250 => 0x2d, 251 => 0x0f, 252 => 0xb0, 253 => 0x54, 254 => 0xbb, _ => 0x16,
    }
}

/// The inverse AES S-box.
pub open spec fn inv_sbox(x: u8) -> u8 {
    match x {
        0 => 0x52u8, 1 => 0x09, 2 => 0x6a, 3 => 0xd5, 4 => 0x30, 5 => 0x36, 6 => 0xa5, 7 => 0x38,
        8 => 0xbf, 9 => 0x40, 10 => 0xa3, 11 => 0x9e, 12 => 0x81, 13 => 0xf3, 14 => 0xd7, 15 => 0xfb,
        16 => 0x7c, 17 => 0xe3, 18 => 0x39, 19 => 0x82, 20 => 0x9b, 21 => 0x2f, 22 => 0xff, 23 => 0x87,
        24 => 0x34, 25 => 0x8e, 26 => 0x43, 27 => 0x44, 28 => 0xc4, 29 => 0xde, 30 => 0xe9, 31 => 0xcb,
        32 => 0x54, 33 => 0x7b, 34 => 0x94, 35 => 0x32, 36 => 0xa6, 37 => 0xc2, 38 => 0x23, 39 => 0x3d,
        40 => 0xee, 41 => 0x4c, 42 => 0x95, 43 => 0x0b, 44 => 0x42, 45 => 0xfa, 46 => 0xc3, 47 => 0x4e,
        48 => 0x08, 49 => 0x2e, 50 => 0xa1, 51 => 0x66, 52 => 0x28, 53 => 0xd9, 54 => 0x24, 55 => 0xb2,
        56 => 0x76, 57 => 0x5b, 58 => 0xa2, 59 => 0x49, 60 => 0x6d, 61 => 0x8b, 62 => 0xd1, 63 => 0x25,
        64 => 0x72, 65 => 0xf8, 66 => 0xf6, 67 => 0x64, 68 => 0x86, 69 => 0x68, 70 => 0x98, 71 => 0x16,
        72 => 0xd4, 73 => 0xa4, 74 => 0x5c, 75 => 0xcc, 76 => 0x5d, 77 => 0x65, 78 => 0xb6, 79 => 0x92,
        80 => 0x6c, 81 => 0x70, 82 => 0x48, 83 => 0x50, 84 => 0xfd, 85 => 0xed, 86 => 0xb9, 87 => 0xda,
        88 => 0x5e, 89 => 0x15, 90 => 0x46, 91 => 0x57, 92 => 0xa7, 93 => 0x8d, 94 => 0x9d, 95 => 0x84,
        96 => 0x90, 97 => 0xd8, 98 => 0xab, 99 => 0x00, 100 => 0x8c, 101 => 0xbc, 102 => 0xd3, 103 => 0x0a,
        104 => 0xf7, 105 => 0xe4, 106 => 0x58, 107 => 0x05, 108 => 0xb8, 109 => 0xb3, 110 => 0x45, 111 => 0x06,
        112 => 0xd0, 113 => 0x2c, 114 => 0x1e, 115 => 0x8f, 116 => 0xca, 117 => 0x3f, 118 => 0x0f, 119 => 0x02,
        120 => 0xc1, 121 => 0xaf, 122 => 0xbd, 123 => 0x03, 124 => 0x01, 125 => 0x13, 126 => 0x8a, 127 => 0x6b,
        128 => 0x3a, 129 => 0x91, 130 => 0x11, 131 => 0x41, 132 => 0x4f, 133 => 0x67, 134 => 0xdc, 135 => 0xea,
        136 => 0x97, 137 => 0xf2, 138 => 0xcf, 139 => 0xce, 140 => 0xf0, 141 => 0xb4, 142 => 0xe6, 143 => 0x73,
        144 => 0x96, 145 => 0xac, 146 => 0x74, 147 => 0x22, 148 => 0xe7, 149 => 0xad, 150 => 0x35, 151 => 0x85,
        152 => 0xe2, 153 => 0xf9, 154 => 0x37, 155 => 0xe8, 156 => 0x1c, 157 => 0x75, 158 => 0xdf, 159 => 0x6e,
        160 => 0x47, 161 => 0xf1, 162 => 0x1a, 163 => 0x71, 164 => 0x1d, 165 => 0x29, 166 => 0xc5, 167 => 0x89,
        168 => 0x6f, 169 => 0xb7, 170 => 0x62, 171 => 0x0e, 172 => 0xaa, 173 => 0x18, 174 => 0xbe, 175 => 0x1b,
        176 => 0xfc, 177 => 0x56, 178 => 0x3e, 179 => 0x4b, 180 => 0xc6, 181 => 0xd2, 182 => 0x79, 183 => 0x20,
        184 => 0x9a, 185 => 0xdb, 186 => 0xc0, 187 => 0xfe, 188 => 0x78, 189 => 0xcd, 190 => 0x5a, 191 => 0xf4,
        192 => 0x1f, 193 => 0xdd, 194 => 0xa8, 195 => 0x33, 196 => 0x88, 197 => 0x07, 198 => 0xc7, 199 => 0x31,
        200 => 0xb1, 201 => 0x12, 202 => 0x10, 203 => 0x59, 204 => 0x27, 205 => 0x80, 206 => 0xec, 207 => 0x5f,
        208 => 0x60, 209 => 0x51, 210 => 0x7f, 211 => 0xa9, 212 => 0x19, 213 => 0xb5, 214 => 0x4a, 215 => 0x0d,
        216 => 0x2d, 217 => 0xe5, 218 => 0x7a, 219 => 0x9f, 220 => 0x93, 221 => 0xc9, 222 => 0x9c, 223 => 0xef,
        224 => 0xa0, 225 => 0xe0, 226 => 0x3b, 227 => 0x4d, 228 => 0xae, 229 => 0x2a, 230 => 0xf5, 231 => 0xb0,
        232 => 0xc8, 233 => 0xeb, 234 => 0xbb, 235 => 0x3c, 236 => 0x83, 237 => 0x53, 238 => 0x99, 239 => 0x61,
        240 => 0x17, 241 => 0x2b, 242 => 0x04, 243 => 0x7e, 244 => 0xba, 245 => 0x77, 246 => 0xd6, 247 => 0x26,
        248 => 0xe1, 249 => 0x69, 250 => 0x14, 251 => 0x63, 252 => 0x55, 253 => 0x21, 254 => 0x0c, _ => 0x7d,
    }
}

/// The inverse S-box undoes the S-box.
#[verifier::rlimit(100)]
pub proof fn lemma_inv_sbox(x: u8)
    ensures
        inv_sbox(sbox(x)) == x,
{
    assert(inv_sbox(sbox(x)) == x) by (bit_vector);
}

fn sbox_byte(x: u8) -> (r: u8)
    ensures
        r == sbox(x),
{
    match x {
        0 => 0x63, 1 => 0x7c, 2 => 0x77, 3 => 0x7b, 4 => 0xf2, 5 => 0x6b, 6 => 0x6f, 7 => 0xc5,
        8 => 0x30, 9 => 0x01, 10 => 0x67, 11 => 0x2b, 12 => 0xfe, 13 => 0xd7, 14 => 0xab, 15 => 0x76,
        16 => 0xca, 17 => 0x82, 18 => 0xc9, 19 => 0x7d, 20 => 0xfa, 21 => 0x59, 22 => 0x47, 23 => 0xf0,
        24 => 0xad, 25 => 0xd4, 26 => 0xa2, 27 => 0xaf, 28 => 0x9c, 29 => 0xa4, 30 => 0x72, 31 => 0xc0,
        32 => 0xb7, 33 => 0xfd, 34 => 0x93, 35 => 0x26, 36 => 0x36, 37 => 0x3f, 38 => 0xf7, 39 => 0xcc,
        40 => 0x34, 41 => 0xa5, 42 => 0xe5, 43 => 0xf1, 44 => 0x71, 45 => 0xd8, 46 => 0x31, 47 => 0x15,
        48 => 0x04, 49 => 0xc7, 50 => 0x23, 51 => 0xc3, 52 => 0x18, 53 => 0x96, 54 => 0x05, 55 => 0x9a,
        56 => 0x07, 57 => 0x12, 58 => 0x80, 59 => 0xe2, 60 => 0xeb, 61 => 0x27, 62 => 0xb2, 63 => 0x75,
        64 => 0x09, 65 => 0x83, 66 => 0x2c, 67 => 0x1a, 68 => 0x1b, 69 => 0x6e, 70 => 0x5a, 71 => 0xa0,
        72 => 0x52, 73 => 0x3b, 74 => 0xd6, 75 => 0xb3, 76 => 0x29, 77 => 0xe3, 78 => 0x2f, 79 => 0x84,
        80 => 0x53, 81 => 0xd1, 82 => 0x00, 83 => 0xed, 84 => 0x20, 85 => 0xfc, 86 => 0xb1, 87 => 0x5b,
        88 => 0x6a, 89 => 0xcb, 90 => 0xbe, 91 => 0x39, 92 => 0x4a, 93 => 0x4c, 94 => 0x58, 95 => 0xcf,
        96 => 0xd0, 97 => 0xef, 98 => 0xaa, 99 => 0xfb, 100 => 0x43, 101 => 0x4d, 102 => 0x33, 103 => 0x85,
        104 => 0x45, 105 => 0xf9, 106 => 0x02, 107 => 0x7f, 108 => 0x50, 109 => 0x3c, 110 => 0x9f, 111 => 0xa8,
        112 => 0x51, 113 => 0xa3, 114 => 0x40, 115 => 0x8f, 116 => 0x92, 117 => 0x9d, 118 => 0x38, 119 => 0xf5,
        120 => 0xbc, 121 => 0xb6, 122 => 0xda, 123 => 0x21, 124 => 0x10, 125 => 0xff, 126 => 0xf3, 127 => 0xd2,
        128 => 0xcd, 129 => 0x0c, 130 => 0x13, 131 => 0xec, 132 => 0x5f, 133 => 0x97, 134 => 0x44, 135 => 0x17,
        136 => 0xc4, 137 => 0xa7, 138 => 0x7e, 139 => 0x3d, 140 => 0x64, 141 => 0x5d, 142 => 0x19, 143 => 0x73,
        144 => 0x60, 145 => 0x81, 146 => 0x4f, 147 => 0xdc, 148 => 0x22, 149 => 0x2a, 150 => 0x90, 151 => 0x88,
        152 => 0x46, 153 => 0xee, 154 => 0xb8, 155 => 0x14, 156 => 0xde, 157 => 0x5e, 158 => 0x0b, 159 => 0xdb,
        160 => 0xe0, 161 => 0x32, 162 => 0x3a, 163 => 0x0a, 164 => 0x49, 165 => 0x06, 166 => 0x24, 167 => 0x5c,
        168 => 0xc2, 169 => 0xd3, 170 => 0xac, 171 => 0x62, 172 => 0x91, 173 => 0x95, 174 => 0xe4, 175 => 0x79,
        176 => 0xe7, 177 => 0xc8, 178 => 0x37, 179 => 0x6d, 180 => 0x8d, 181 => 0xd5, 182 => 0x4e, 183 => 0xa9,
        184 => 0x6c, 185 => 0x56, 186 => 0xf4, 187 => 0xea, 188 => 0x65, 189 => 0x7a, 190 => 0xae, 191 => 0x08,
        192 => 0xba, 193 => 0x78, 194 => 0x25, 195 => 0x2e, 196 => 0x1c, 197 => 0xa6, 198 => 0xb4, 199 => 0xc6,
        200 => 0xe8, 201 => 0xdd, 202 => 0x74, 203 => 0x1f, 204 => 0x4b, 205 => 0xbd, 206 => 0x8b, 207 => 0x8a,
        208 => 0x70, 209 => 0x3e, 210 => 0xb5, 211 => 0x66, 212 => 0x48, 213 => 0x03, 214 => 0xf6, 215 => 0x0e,
        216 => 0x61, 217 => 0x35, 218 => 0x57, 219 => 0xb9, 220 => 0x86, 221 => 0xc1, 222 => 0x1d, 223 => 0x9e,
        224 => 0xe1, 225 => 0xf8, 226 => 0x98, 227 => 0x11, 228 => 0x69, 229 => 0xd9, 230 => 0x8e, 231 => 0x94,
        232 => 0x9b, 233 => 0x1e, 234 => 0x87, 235 => 0xe9, 236 => 0xce, 237 => 0x55, 238 => 0x28, 239 => 0xdf,
        240 => 0x8c, 241 => 0xa1, 242 => 0x89, 243 => 0x0d, 244 => 0xbf, 245 => 0xe6, 246 => 0x42, 247 => 0x68,
        248 => 0x41, 249 => 0x99, 250 => 0x2d, 251 => 0x0f, 252 => 0xb0, 253 => 0x54, 254 => 0xbb, _ => 0x16,
    }
}

fn inv_sbox_byte(x: u8) -> (r: u8)
    ensures
        r == inv_sbox(x),
{
    match x {
        0 => 0x52, 1 => 0x09, 2 => 0x6a, 3 => 0xd5, 4 => 0x30, 5 => 0x36, 6 => 0xa5, 7 => 0x38,
        8 => 0xbf, 9 => 0x40, 10 => 0xa3, 11 => 0x9e, 12 => 0x81, 13 => 0xf3, 14 => 0xd7, 15 => 0xfb,
        16 => 0x7c, 17 => 0xe3, 18 => 0x39, 19 => 0x82, 20 => 0x9b, 21 => 0x2f, 22 => 0xff, 23 => 0x87,
        24 => 0x34, 25 => 0x8e, 26 => 0x43, 27 => 0x44, 28 => 0xc4, 29 => 0xde, 30 => 0xe9, 31 => 0xcb,
        32 => 0x54, 33 => 0x7b, 34 => 0x94, 35 => 0x32, 36 => 0xa6, 37 => 0xc2, 38 => 0x23, 39 => 0x3d,
        40 => 0xee, 41 => 0x4c, 42 => 0x95, 43 => 0x0b, 44 => 0x42, 45 => 0xfa, 46 => 0xc3, 47 => 0x4e,
        48 => 0x08, 49 => 0x2e, 50 => 0xa1, 51 => 0x66, 52 => 0x28, 53 => 0xd9, 54 => 0x24, 55 => 0xb2,
        56 => 0x76, 57 => 0x5b, 58 => 0xa2, 59 => 0x49, 60 => 0x6d, 61 => 0x8b, 62 => 0xd1, 63 => 0x25,
        64 => 0x72, 65 => 0xf8, 66 => 0xf6, 67 => 0x64, 68 => 0x86, 69 => 0x68, 70 => 0x98, 71 => 0x16,
        72 => 0xd4, 73 => 0xa4, 74 => 0x5c, 75 => 0xcc, 76 => 0x5d, 77 => 0x65, 78 => 0xb6, 79 => 0x92,
        80 => 0x6c, 81 => 0x70, 82 => 0x48, 83 => 0x50, 84 => 0xfd, 85 => 0xed, 86 => 0xb9, 87 => 0xda,
        88 => 0x5e, 89 => 0x15, 90 => 0x46, 91 => 0x57, 92 => 0xa7, 93 => 0x8d, 94 => 0x9d, 95 => 0x84,
        96 => 0x90, 97 => 0xd8, 98 => 0xab, 99 => 0x00, 100 => 0x8c, 101 => 0xbc, 102 => 0xd3, 103 => 0x0a,
        104 => 0xf7, 105 => 0xe4, 106 => 0x58, 107 => 0x05, 108 => 0xb8, 109 => 0xb3, 110 => 0x45, 111 => 0x06,
        112 => 0xd0, 113 => 0x2c, 114 => 0x1e, 115 => 0x8f, 116 => 0xca, 117 => 0x3f, 118 => 0x0f, 119 => 0x02,
        120 => 0xc1, 121 => 0xaf, 122 => 0xbd, 123 => 0x03, 124 => 0x01, 125 => 0x13, 126 => 0x8a, 127 => 0x6b,
        128 => 0x3a, 129 => 0x91, 130 => 0x11, 131 => 0x41, 132 => 0x4f, 133 => 0x67, 134 => 0xdc, 135 => 0xea,
        136 => 0x97, 137 => 0xf2, 138 => 0xcf, 139 => 0xce, 140 => 0xf0, 141 => 0xb4, 142 => 0xe6, 143 => 0x73,
        144 => 0x96, 145 => 0xac, 146 => 0x74, 147 => 0x22, 148 => 0xe7, 149 => 0xad, 150 => 0x35, 151 => 0x85,
        152 => 0xe2, 153 => 0xf9, 154 => 0x37, 155 => 0xe8, 156 => 0x1c, 157 => 0x75, 158 => 0xdf, 159 => 0x6e,
        160 => 0x47, 161 => 0xf1, 162 => 0x1a, 163 => 0x71, 164 => 0x1d, 165 => 0x29, 166 => 0xc5, 167 => 0x89,
        168 => 0x6f, 169 => 0xb7, 170 => 0x62, 171 => 0x0e, 172 => 0xaa, 173 => 0x18, 174 => 0xbe, 175 => 0x1b,
        176 => 0xfc, 177 => 0x56, 178 => 0x3e, 179 => 0x4b, 180 => 0xc6, 181 => 0xd2, 182 => 0x79, 183 => 0x20,
        184 => 0x9a, 185 => 0xdb, 186 => 0xc0, 187 => 0xfe, 188 => 0x78, 189 => 0xcd, 190 => 0x5a, 191 => 0xf4,
        192 => 0x1f, 193 => 0xdd, 194 => 0xa8, 195 => 0x33, 196 => 0x88, 197 => 0x07, 198 => 0xc7, 199 => 0x31,
        200 => 0xb1, 201 => 0x12, 202 => 0x10, 203 => 0x59, 204 => 0x27, 205 => 0x80, 206 => 0xec, 207 => 0x5f,
        208 => 0x60, 209 => 0x51, 210 => 0x7f, 211 => 0xa9, 212 => 0x19, 213 => 0xb5, 214 => 0x4a, 215 => 0x0d,
        216 => 0x2d, 217 => 0xe5, 218 => 0x7a, 219 => 0x9f, 220 => 0x93, 221 => 0xc9, 222 => 0x9c, 223 => 0xef,
        224 => 0xa0, 225 => 0xe0, 226 => 0x3b, 227 => 0x4d, 228 => 0xae, 229 => 0x2a, 230 => 0xf5, 231 => 0xb0,
        232 => 0xc8, 233 => 0xeb, 234 => 0xbb, 235 => 0x3c, 236 => 0x83, 237 => 0x53, 238 => 0x99, 239 => 0x61,
        240 => 0x17, 241 => 0x2b, 242 => 0x04, 243 => 0x7e, 244 => 0xba, 245 => 0x77, 246 => 0xd6, 247 => 0x26,
        248 => 0xe1, 249 => 0x69, 250 => 0x14, 251 => 0x63, 252 => 0x55, 253 => 0x21, 254 => 0x0c, _ => 0x7d,
    }
}

/// The VandalProof key: the ASCII bytes of `FA89412D87B0EFD9`.
pub open spec fn vp_key() -> Seq<u8> {
    seq![0x46u8, 0x41, 0x38, 0x39, 0x34, 0x31, 0x32, 0x44, 0x38, 0x37, 0x42, 0x30, 0x45, 0x46, 0x44, 0x39]
}


/// Multiplication by x in GF(2^8) modulo x^8 + x^4 + x^3 + x + 1.
pub open spec fn xtime(b: u8) -> u8 {
    if b & 0x80u8 != 0 {
        ((b << 1u8) ^ 0x1bu8) as u8
    } else {
        (b << 1u8) as u8
    }
}

/// Every byte of the state through the S-box.
pub open spec fn sub_bytes(s: Seq<u8>) -> Seq<u8> {
    Seq::new(16, |i: int| sbox(s[i]))
}

/// Every byte of the state through the inverse S-box.
pub open spec fn inv_sub_bytes(s: Seq<u8>) -> Seq<u8> {
    Seq::new(16, |i: int| inv_sbox(s[i]))
}

/// Row `r` of the state (byte `r + 4c`) rotated left by `r`.
pub open spec fn shift_rows(s: Seq<u8>) -> Seq<u8> {
    Seq::new(16, |i: int| s[i % 4 + 4 * ((i / 4 + i % 4) % 4)])
}

/// Row `r` of the state rotated right by `r`.
pub open spec fn inv_shift_rows(s: Seq<u8>) -> Seq<u8> {
    Seq::new(16, |i: int| s[i % 4 + 4 * ((i / 4 + 4 - i % 4) % 4)])
}

/// Byte `r` of a mixed column `a0..a3`, given its doubled bytes `x0..x3`
/// (`xj` is `2 * aj` in GF(2^8)).
pub open spec fn mixl(a0: u8, a1: u8, a2: u8, a3: u8, x0: u8, x1: u8, x2: u8, x3: u8, r: int) -> u8 {
    if r == 0 {
        x0 ^ (x1 ^ a1) ^ a2 ^ a3
    } else if r == 1 {
        a0 ^ x1 ^ (x2 ^ a2) ^ a3
    } else if r == 2 {
        a0 ^ a1 ^ x2 ^ (x3 ^ a3)
    } else {
        (x0 ^ a0) ^ a1 ^ a2 ^ x3
    }
}

/// Byte `r` of the mixed column `a0..a3`: the column times `[2 3 1 1]`
/// rotated right by `r`.
pub open spec fn mix(a0: u8, a1: u8, a2: u8, a3: u8, r: int) -> u8 {
    mixl(a0, a1, a2, a3, xtime(a0), xtime(a1), xtime(a2), xtime(a3), r)
}

/// Byte `r` of an unmixed column `m0..m3`, given its multiples by 2 (`d`),
/// 4 (`q`) and 8 (`e`): the column times `[14 11 13 9]` rotated right by `r`.
pub open spec fn invl(
    m0: u8, m1: u8, m2: u8, m3: u8,
    d0: u8, d1: u8, d2: u8, d3: u8,
    q0: u8, q1: u8, q2: u8, q3: u8,
    e0: u8, e1: u8, e2: u8, e3: u8,
    r: int,
) -> u8 {
    if r == 0 {
        (e0 ^ q0 ^ d0) ^ (e1 ^ d1 ^ m1) ^ (e2 ^ q2 ^ m2) ^ (e3 ^ m3)
    } else if r == 1 {
        (e0 ^ m0) ^ (e1 ^ q1 ^ d1) ^ (e2 ^ d2 ^ m2) ^ (e3 ^ q3 ^ m3)
    } else if r == 2 {
        (e0 ^ q0 ^ m0) ^ (e1 ^ m1) ^ (e2 ^ q2 ^ d2) ^ (e3 ^ d3 ^ m3)
    } else {
        (e0 ^ d0 ^ m0) ^ (e1 ^ q1 ^ m1) ^ (e2 ^ m2) ^ (e3 ^ q3 ^ d3)
    }
}

/// Byte `r` of the unmixed column `m0..m3`.
pub open spec fn inv_mix(m0: u8, m1: u8, m2: u8, m3: u8, r: int) -> u8 {
    invl(
        m0, m1, m2, m3,
        xtime(m0), xtime(m1), xtime(m2), xtime(m3),
        xtime(xtime(m0)), xtime(xtime(m1)), xtime(xtime(m2)), xtime(xtime(m3)),
        xtime(xtime(xtime(m0))), xtime(xtime(xtime(m1))), xtime(xtime(xtime(m2))), xtime(xtime(xtime(m3))),
        r,
    )
}

/// Doubling in GF(2^8) distributes over XOR.
proof fn lemma_xtime_xor(u: u8, v: u8)
    by (bit_vector)
    ensures
        xtime(u ^ v) == xtime(u) ^ xtime(v),
{
}

/// Doubling commutes with mixing.
proof fn lemma_xtime_mixl(a0: u8, a1: u8, a2: u8, a3: u8, x0: u8, x1: u8, x2: u8, x3: u8, r: int)
    requires
        0 <= r < 4,
    ensures
        xtime(mixl(a0, a1, a2, a3, x0, x1, x2, x3, r)) == mixl(
            xtime(a0), xtime(a1), xtime(a2), xtime(a3), xtime(x0), xtime(x1), xtime(x2), xtime(x3), r),
{
    if r == 0 {
        lemma_xtime_xor(x1, a1);
        lemma_xtime_xor(x0, x1 ^ a1);
        lemma_xtime_xor(x0 ^ (x1 ^ a1), a2);
        lemma_xtime_xor(x0 ^ (x1 ^ a1) ^ a2, a3);
    } else if r == 1 {
        lemma_xtime_xor(x2, a2);
        lemma_xtime_xor(a0, x1);
        lemma_xtime_xor(a0 ^ x1, x2 ^ a2);
        lemma_xtime_xor(a0 ^ x1 ^ (x2 ^ a2), a3);
    } else if r == 2 {
        lemma_xtime_xor(x3, a3);
        lemma_xtime_xor(a0, a1);
        lemma_xtime_xor(a0 ^ a1, x2);
        lemma_xtime_xor(a0 ^ a1 ^ x2, x3 ^ a3);
    } else {
        lemma_xtime_xor(x0, a0);
        lemma_xtime_xor(x0 ^ a0, a1);
        lemma_xtime_xor((x0 ^ a0) ^ a1, a2);
        lemma_xtime_xor((x0 ^ a0) ^ a1 ^ a2, x3);
    }
}

/// The XOR identity behind `[14 11 13 9]` inverting `[2 3 1 1]`: with
/// `b = 2a`, `c = 4a`, `d = 8a` and `e = 16a`, unmixing the mixed column
/// gives back `a`.
proof fn lemma_unmix_xor(
    a0: u8, a1: u8, a2: u8, a3: u8,
    b0: u8, b1: u8, b2: u8, b3: u8,
    c0: u8, c1: u8, c2: u8, c3: u8,
    d0: u8, d1: u8, d2: u8, d3: u8,
    e0: u8, e1: u8, e2: u8, e3: u8,
)
    by (bit_vector)
    ensures
        invl(
            mixl(a0, a1, a2, a3, b0, b1, b2, b3, 0), mixl(a0, a1, a2, a3, b0, b1, b2, b3, 1),
            mixl(a0, a1, a2, a3, b0, b1, b2, b3, 2), mixl(a0, a1, a2, a3, b0, b1, b2, b3, 3),
            mixl(b0, b1, b2, b3, c0, c1, c2, c3, 0), mixl(b0, b1, b2, b3, c0, c1, c2, c3, 1),
            mixl(b0, b1, b2, b3, c0, c1, c2, c3, 2), mixl(b0, b1, b2, b3, c0, c1, c2, c3, 3),
            mixl(c0, c1, c2, c3, d0, d1, d2, d3, 0), mixl(c0, c1, c2, c3, d0, d1, d2, d3, 1),
            mixl(c0, c1, c2, c3, d0, d1, d2, d3, 2), mixl(c0, c1, c2, c3, d0, d1, d2, d3, 3),
            mixl(d0, d1, d2, d3, e0, e1, e2, e3, 0), mixl(d0, d1, d2, d3, e0, e1, e2, e3, 1),
            mixl(d0, d1, d2, d3, e0, e1, e2, e3, 2), mixl(d0, d1, d2, d3, e0, e1, e2, e3, 3),
            0,
        ) == a0,
        invl(
            mixl(a0, a1, a2, a3, b0, b1, b2, b3, 0), mixl(a0, a1, a2, a3, b0, b1, b2, b3, 1),
            mixl(a0, a1, a2, a3, b0, b1, b2, b3, 2), mixl(a0, a1, a2, a3, b0, b1, b2, b3, 3),
            mixl(b0, b1, b2, b3, c0, c1, c2, c3, 0), mixl(b0, b1, b2, b3, c0, c1, c2, c3, 1),
            mixl(b0, b1, b2, b3, c0, c1, c2, c3, 2), mixl(b0, b1, b2, b3, c0, c1, c2, c3, 3),
            mixl(c0, c1, c2, c3, d0, d1, d2, d3, 0), mixl(c0, c1, c2, c3, d0, d1, d2, d3, 1),
            mixl(c0, c1, c2, c3, d0, d1, d2, d3, 2), mixl(c0, c1, c2, c3, d0, d1, d2, d3, 3),
            mixl(d0, d1, d2, d3, e0, e1, e2, e3, 0), mixl(d0, d1, d2, d3, e0, e1, e2, e3, 1),
            mixl(d0, d1, d2, d3, e0, e1, e2, e3, 2), mixl(d0, d1, d2, d3, e0, e1, e2, e3, 3),
            1,
        ) == a1,
        invl(
            mixl(a0, a1, a2, a3, b0, b1, b2, b3, 0), mixl(a0, a1, a2, a3, b0, b1, b2, b3, 1),
            mixl(a0, a1, a2, a3, b0, b1, b2, b3, 2), mixl(a0, a1, a2, a3, b0, b1, b2, b3, 3),
            mixl(b0, b1, b2, b3, c0, c1, c2, c3, 0), mixl(b0, b1, b2, b3, c0, c1, c2, c3, 1),
            mixl(b0, b1, b2, b3, c0, c1, c2, c3, 2), mixl(b0, b1, b2, b3, c0, c1, c2, c3, 3),
            mixl(c0, c1, c2, c3, d0, d1, d2, d3, 0), mixl(c0, c1, c2, c3, d0, d1, d2, d3, 1),
            mixl(c0, c1, c2, c3, d0, d1, d2, d3, 2), mixl(c0, c1, c2, c3, d0, d1, d2, d3, 3),
            mixl(d0, d1, d2, d3, e0, e1, e2, e3, 0), mixl(d0, d1, d2, d3, e0, e1, e2, e3, 1),
            mixl(d0, d1, d2, d3, e0, e1, e2, e3, 2), mixl(d0, d1, d2, d3, e0, e1, e2, e3, 3),
            2,
        ) == a2,
        invl(
            mixl(a0, a1, a2, a3, b0, b1, b2, b3, 0), mixl(a0, a1, a2, a3, b0, b1, b2, b3, 1),
            mixl(a0, a1, a2, a3, b0, b1, b2, b3, 2), mixl(a0, a1, a2, a3, b0, b1, b2, b3, 3),
            mixl(b0, b1, b2, b3, c0, c1, c2, c3, 0), mixl(b0, b1, b2, b3, c0, c1, c2, c3, 1),
            mixl(b0, b1, b2, b3, c0, c1, c2, c3, 2), mixl(b0, b1, b2, b3, c0, c1, c2, c3, 3),
            mixl(c0, c1, c2, c3, d0, d1, d2, d3, 0), mixl(c0, c1, c2, c3, d0, d1, d2, d3, 1),
            mixl(c0, c1, c2, c3, d0, d1, d2, d3, 2), mixl(c0, c1, c2, c3, d0, d1, d2, d3, 3),
            mixl(d0, d1, d2, d3, e0, e1, e2, e3, 0), mixl(d0, d1, d2, d3, e0, e1, e2, e3, 1),
            mixl(d0, d1, d2, d3, e0, e1, e2, e3, 2), mixl(d0, d1, d2, d3, e0, e1, e2, e3, 3),
            3,
        ) == a3,
{
}

/// Each column (bytes `4c..4c+4`) of the state mixed.
pub open spec fn mix_columns(s: Seq<u8>) -> Seq<u8> {
    Seq::new(16, |i: int| {
        let c = 4 * (i / 4);
        mix(s[c], s[c + 1], s[c + 2], s[c + 3], i % 4)
    })
}

/// Each column of the state unmixed.
pub open spec fn inv_mix_columns(s: Seq<u8>) -> Seq<u8> {
    Seq::new(16, |i: int| {
        let c = 4 * (i / 4);
        inv_mix(s[c], s[c + 1], s[c + 2], s[c + 3], i % 4)
    })
}

/// `s` XOR round key `round` of the schedule `rk`.
pub open spec fn add_round_key(s: Seq<u8>, rk: Seq<u8>, round: int) -> Seq<u8> {
    Seq::new(16, |i: int| s[i] ^ rk[16 * round + i])
}

/// The round constant of word `4j`: `x^(j-1)` in GF(2^8).
pub open spec fn rcon(j: int) -> u8
    decreases j,
{
    if j <= 1 {
        1
    } else {
        xtime(rcon(j - 1))
    }
}

/// Byte `k` of the word that key-schedule word `i - 1` contributes to word
/// `i`: rotated, substituted and XORed with the round constant at the start
/// of each round key, the word itself otherwise.
pub open spec fn schedule_temp(w: Seq<u8>, i: int, k: int) -> u8 {
    if i % 4 == 0 {
        if k == 0 {
            sbox(w[4 * (i - 1) + 1]) ^ rcon(i / 4)
        } else {
            sbox(w[4 * (i - 1) + (k + 1) % 4])
        }
    } else {
        w[4 * (i - 1) + k]
    }
}

/// Word `i` (4 bytes) of the key schedule, given the words before it.
pub open spec fn next_word(w: Seq<u8>, i: int) -> Seq<u8> {
    Seq::new(4, |k: int| w[4 * (i - 4) + k] ^ schedule_temp(w, i, k))
}

/// The first `n` words of the key schedule of `key`.
pub open spec fn key_schedule(key: Seq<u8>, n: nat) -> Seq<u8>
    decreases n,
{
    if n <= 4 {
        key.subrange(0, 4 * n as int)
    } else {
        let w = key_schedule(key, (n - 1) as nat);
        w + next_word(w, n - 1)
    }
}

/// The 11 round keys of AES-128.
pub open spec fn round_keys(key: Seq<u8>) -> Seq<u8> {
    key_schedule(key, 44)
}

/// The state after round `r` of the cipher (round 0 is the first key
/// addition).
pub open spec fn enc_state(b: Seq<u8>, rk: Seq<u8>, r: nat) -> Seq<u8>
    decreases r,
{
    if r == 0 {
        add_round_key(b, rk, 0)
    } else {
        add_round_key(mix_columns(shift_rows(sub_bytes(enc_state(b, rk, (r - 1) as nat)))), rk, r as int)
    }
}

/// AES-128 encryption of one block under the schedule `rk`.
pub open spec fn encrypt_block(b: Seq<u8>, rk: Seq<u8>) -> Seq<u8> {
    add_round_key(shift_rows(sub_bytes(enc_state(b, rk, 9))), rk, 10)
}

/// Rounds `r` down to 1 of the inverse cipher.
pub open spec fn dec_rounds(s: Seq<u8>, rk: Seq<u8>, r: nat) -> Seq<u8>
    decreases r,
{
    if r == 0 {
        s
    } else {
        dec_rounds(inv_mix_columns(add_round_key(inv_sub_bytes(inv_shift_rows(s)), rk, r as int)), rk, (r - 1) as nat)
    }
}

/// AES-128 decryption of one block under the schedule `rk`.
pub open spec fn decrypt_block(b: Seq<u8>, rk: Seq<u8>) -> Seq<u8> {
    add_round_key(inv_sub_bytes(inv_shift_rows(dec_rounds(add_round_key(b, rk, 10), rk, 9))), rk, 0)
}

/// Block `k` (16 bytes) of `d`.
pub open spec fn block(d: Seq<u8>, k: int) -> Seq<u8> {
    d.subrange(16 * k, 16 * k + 16)
}

/// CBC decryption of `d` (the IV, then whole cipher blocks).
pub open spec fn cbc_decrypt(d: Seq<u8>, rk: Seq<u8>) -> Seq<u8> {
    Seq::new((d.len() - 16) as nat, |j: int| decrypt_block(block(d, j / 16 + 1), rk)[j % 16] ^ d[j])
}

/// `p` without its PKCS#7 padding; None if the padding is wrong.
pub open spec fn unpad(p: Seq<u8>) -> Option<Seq<u8>> {
    if p.len() == 0 {
        None
    } else {
        let n = p.last() as int;
        if 1 <= n <= 16 && n <= p.len() && forall|k: int| p.len() - n <= k < p.len() ==> #[trigger] p[k] == n {
            Some(p.subrange(0, p.len() - n))
        } else {
            None
        }
    }
}

/// The plaintext of a VandalProof package; None unless it is the IV and at
/// least one whole block, with valid padding.
pub open spec fn vp_decrypt(d: Seq<u8>) -> Option<Seq<u8>> {
    if d.len() >= 32 && d.len() % 16 == 0 {
        unpad(cbc_decrypt(d, round_keys(vp_key())))
    } else {
        None
    }
}

/// `p` with PKCS#7 padding to whole blocks.
pub open spec fn pad(p: Seq<u8>) -> Seq<u8> {
    let n = 16 - p.len() % 16;
    p + Seq::new(n as nat, |k: int| n as u8)
}

/// CBC encryption of the whole blocks of `p`, chained from `prev`.
pub open spec fn cbc_blocks(p: Seq<u8>, rk: Seq<u8>, prev: Seq<u8>) -> Seq<u8>
    decreases p.len(),
{
    if p.len() < 16 {
        seq![]
    } else {
        let c = encrypt_block(Seq::new(16, |i: int| p[i] ^ prev[i]), rk);
        c + cbc_blocks(p.subrange(16, p.len() as int), rk, c)
    }
}

/// The VandalProof package of `p` with IV `iv`.
pub open spec fn vp_encrypt(p: Seq<u8>, iv: Seq<u8>) -> Seq<u8> {
    iv + cbc_blocks(pad(p), round_keys(vp_key()), iv)
}

// Why decryption undoes encryption.

/// Unmixing undoes mixing, byte by byte of a column.
proof fn lemma_inv_mix(a0: u8, a1: u8, a2: u8, a3: u8)
    ensures
        inv_mix(mix(a0, a1, a2, a3, 0), mix(a0, a1, a2, a3, 1), mix(a0, a1, a2, a3, 2), mix(a0, a1, a2, a3, 3), 0) == a0,
        inv_mix(mix(a0, a1, a2, a3, 0), mix(a0, a1, a2, a3, 1), mix(a0, a1, a2, a3, 2), mix(a0, a1, a2, a3, 3), 1) == a1,
        inv_mix(mix(a0, a1, a2, a3, 0), mix(a0, a1, a2, a3, 1), mix(a0, a1, a2, a3, 2), mix(a0, a1, a2, a3, 3), 2) == a2,
        inv_mix(mix(a0, a1, a2, a3, 0), mix(a0, a1, a2, a3, 1), mix(a0, a1, a2, a3, 2), mix(a0, a1, a2, a3, 3), 3) == a3,
{
    let (b0, b1, b2, b3) = (xtime(a0), xtime(a1), xtime(a2), xtime(a3));
    let (c0, c1, c2, c3) = (xtime(b0), xtime(b1), xtime(b2), xtime(b3));
    let (d0, d1, d2, d3) = (xtime(c0), xtime(c1), xtime(c2), xtime(c3));
    let (e0, e1, e2, e3) = (xtime(d0), xtime(d1), xtime(d2), xtime(d3));
    lemma_xtime_mixl(a0, a1, a2, a3, b0, b1, b2, b3, 0);
    lemma_xtime_mixl(b0, b1, b2, b3, c0, c1, c2, c3, 0);
    lemma_xtime_mixl(c0, c1, c2, c3, d0, d1, d2, d3, 0);
    lemma_xtime_mixl(a0, a1, a2, a3, b0, b1, b2, b3, 1);
    lemma_xtime_mixl(b0, b1, b2, b3, c0, c1, c2, c3, 1);
    lemma_xtime_mixl(c0, c1, c2, c3, d0, d1, d2, d3, 1);
    lemma_xtime_mixl(a0, a1, a2, a3, b0, b1, b2, b3, 2);
    lemma_xtime_mixl(b0, b1, b2, b3, c0, c1, c2, c3, 2);
    lemma_xtime_mixl(c0, c1, c2, c3, d0, d1, d2, d3, 2);
    lemma_xtime_mixl(a0, a1, a2, a3, b0, b1, b2, b3, 3);
    lemma_xtime_mixl(b0, b1, b2, b3, c0, c1, c2, c3, 3);
    lemma_xtime_mixl(c0, c1, c2, c3, d0, d1, d2, d3, 3);
    lemma_unmix_xor(a0, a1, a2, a3, b0, b1, b2, b3, c0, c1, c2, c3, d0, d1, d2, d3, e0, e1, e2, e3);
}

proof fn lemma_inv_mix_columns(s: Seq<u8>)
    requires
        s.len() == 16,
    ensures
        inv_mix_columns(mix_columns(s)) == s,
{
    let m = mix_columns(s);
    assert forall|i: int| 0 <= i < 16 implies #[trigger] inv_mix_columns(m)[i] == s[i] by {
        let c = 4 * (i / 4);
        lemma_inv_mix(s[c], s[c + 1], s[c + 2], s[c + 3]);
        assert(m[c] == mix(s[c], s[c + 1], s[c + 2], s[c + 3], 0));
        assert(m[c + 1] == mix(s[c], s[c + 1], s[c + 2], s[c + 3], 1));
        assert(m[c + 2] == mix(s[c], s[c + 1], s[c + 2], s[c + 3], 2));
        assert(m[c + 3] == mix(s[c], s[c + 1], s[c + 2], s[c + 3], 3));
        if i % 4 == 0 {
        } else if i % 4 == 1 {
        } else if i % 4 == 2 {
        } else {
        }
    }
    assert(inv_mix_columns(m) =~= s);
}

proof fn lemma_inv_shift_rows(s: Seq<u8>)
    requires
        s.len() == 16,
    ensures
        inv_shift_rows(shift_rows(s)) == s,
{
    assert(inv_shift_rows(shift_rows(s)) =~= s);
}

proof fn lemma_inv_sub_bytes(s: Seq<u8>)
    requires
        s.len() == 16,
    ensures
        inv_sub_bytes(sub_bytes(s)) == s,
{
    assert forall|i: int| 0 <= i < 16 implies #[trigger] inv_sub_bytes(sub_bytes(s))[i] == s[i] by {
        lemma_inv_sbox(s[i]);
    }
    assert(inv_sub_bytes(sub_bytes(s)) =~= s);
}

proof fn lemma_add_round_key_twice(s: Seq<u8>, rk: Seq<u8>, r: int)
    requires
        s.len() == 16,
    ensures
        add_round_key(add_round_key(s, rk, r), rk, r) == s,
{
    assert forall|i: int| 0 <= i < 16 implies #[trigger] add_round_key(add_round_key(s, rk, r), rk, r)[i] == s[i] by {
        lemma_xor_twice(s[i], rk[16 * r + i]);
    }
    assert(add_round_key(add_round_key(s, rk, r), rk, r) =~= s);
}

/// The inverse rounds peel the cipher rounds off again, down to round 0.
proof fn lemma_dec_rounds(b: Seq<u8>, rk: Seq<u8>, r: nat)
    ensures
        dec_rounds(shift_rows(sub_bytes(enc_state(b, rk, r))), rk, r) == shift_rows(sub_bytes(enc_state(b, rk, 0))),
    decreases r,
{
    if r > 0 {
        let prev = shift_rows(sub_bytes(enc_state(b, rk, (r - 1) as nat)));
        lemma_inv_shift_rows(sub_bytes(enc_state(b, rk, r)));
        lemma_inv_sub_bytes(enc_state(b, rk, r));
        lemma_add_round_key_twice(mix_columns(prev), rk, r as int);
        lemma_inv_mix_columns(prev);
        lemma_dec_rounds(b, rk, (r - 1) as nat);
    }
}

/// Decrypting a block undoes encrypting it, under any key schedule.
pub proof fn lemma_block_roundtrip(b: Seq<u8>, rk: Seq<u8>)
    requires
        b.len() == 16,
    ensures
        decrypt_block(encrypt_block(b, rk), rk) == b,
{
    let s0 = enc_state(b, rk, 0);
    lemma_add_round_key_twice(shift_rows(sub_bytes(enc_state(b, rk, 9))), rk, 10);
    lemma_dec_rounds(b, rk, 9);
    lemma_inv_shift_rows(sub_bytes(s0));
    lemma_inv_sub_bytes(s0);
    lemma_add_round_key_twice(b, rk, 0);
}

proof fn lemma_cbc_blocks_len(p: Seq<u8>, rk: Seq<u8>, prev: Seq<u8>)
    requires
        p.len() % 16 == 0,
    ensures
        cbc_blocks(p, rk, prev).len() == p.len(),
    decreases p.len(),
{
    if p.len() >= 16 {
        let c = encrypt_block(Seq::new(16, |i: int| p[i] ^ prev[i]), rk);
        lemma_cbc_blocks_len(p.subrange(16, p.len() as int), rk, c);
    }
}

/// CBC decryption of `prev` followed by the CBC encryption of `q` chained
/// from `prev` gives back `q`.
proof fn lemma_cbc_roundtrip(q: Seq<u8>, rk: Seq<u8>, prev: Seq<u8>)
    requires
        q.len() % 16 == 0,
        prev.len() == 16,
    ensures
        cbc_decrypt(prev + cbc_blocks(q, rk, prev), rk) == q,
    decreases q.len(),
{
    let e = prev + cbc_blocks(q, rk, prev);
    lemma_cbc_blocks_len(q, rk, prev);
    if q.len() >= 16 {
        let x = Seq::new(16, |i: int| q[i] ^ prev[i]);
        let c = encrypt_block(x, rk);
        let q2 = q.subrange(16, q.len() as int);
        let rest = c + cbc_blocks(q2, rk, c);
        lemma_cbc_roundtrip(q2, rk, c);
        lemma_cbc_blocks_len(q2, rk, c);
        lemma_block_roundtrip(x, rk);
        assert(e == prev + rest);
        assert forall|j: int| 0 <= j < q.len() implies #[trigger] cbc_decrypt(e, rk)[j] == q[j] by {
            if j < 16 {
                assert(block(e, 1) =~= c);
                lemma_xor_twice(q[j], prev[j]);
            } else {
                let k = j / 16 + 1;
                assert(block(e, k) =~= block(rest, (j - 16) / 16 + 1));
                assert(cbc_decrypt(rest, rk)[j - 16] == q2[j - 16]);
            }
        }
        assert(cbc_decrypt(e, rk) =~= q);
    } else {
        assert(cbc_decrypt(e, rk) =~= q);
    }
}

proof fn lemma_unpad_pad(p: Seq<u8>)
    ensures
        unpad(pad(p)) == Some(p),
{
    let q = pad(p);
    let n = 16 - p.len() % 16;
    assert(q.last() == n as u8);
    assert(q.subrange(0, q.len() - n) =~= p);
}

/// Decrypting a VandalProof package gives back what was encrypted, for any
/// IV.
pub proof fn lemma_vp_roundtrip(p: Seq<u8>, iv: Seq<u8>)
    requires
        iv.len() == 16,
    ensures
        vp_decrypt(vp_encrypt(p, iv)) == Some(p),
{
    let rk = round_keys(vp_key());
    let q = pad(p);
    lemma_cbc_blocks_len(q, rk, iv);
    lemma_cbc_roundtrip(q, rk, iv);
    lemma_unpad_pad(p);
}

// Executable cipher.

fn xtime_byte(b: u8) -> (r: u8)
    ensures
        r == xtime(b),
{
    if b & 0x80u8 != 0 {
        (b << 1u8) ^ 0x1bu8
    } else {
        b << 1u8
    }
}

fn sub_bytes_exec(s: &[u8; 16]) -> (o: [u8; 16])
    ensures
        o@ == sub_bytes(s@),
{
    let mut o = [0u8; 16];
    let mut i: usize = 0;
    while i < 16
        invariant
            0 <= i <= 16,
            forall|k: int| 0 <= k < i ==> o@[k] == sbox(s@[k]),
        decreases 16 - i,
    {
        o[i] = sbox_byte(s[i]);
        i = i + 1;
    }
    assert(o@ =~= sub_bytes(s@));
    o
}

fn inv_sub_bytes_exec(s: &[u8; 16]) -> (o: [u8; 16])
    ensures
        o@ == inv_sub_bytes(s@),
{
    let mut o = [0u8; 16];
    let mut i: usize = 0;
    while i < 16
        invariant
            0 <= i <= 16,
            forall|k: int| 0 <= k < i ==> o@[k] == inv_sbox(s@[k]),
        decreases 16 - i,
    {
        o[i] = inv_sbox_byte(s[i]);
        i = i + 1;
    }
    assert(o@ =~= inv_sub_bytes(s@));
    o
}

fn shift_rows_exec(s: &[u8; 16]) -> (o: [u8; 16])
    ensures
        o@ == shift_rows(s@),
{
    let mut o = [0u8; 16];
    let mut i: usize = 0;
    while i < 16
        invariant
            0 <= i <= 16,
            forall|k: int| 0 <= k < i ==> o@[k] == shift_rows(s@)[k],
        decreases 16 - i,
    {
        o[i] = s[i % 4 + 4 * ((i / 4 + i % 4) % 4)];
        i = i + 1;
    }
    assert(o@ =~= shift_rows(s@));
    o
}

fn inv_shift_rows_exec(s: &[u8; 16]) -> (o: [u8; 16])
    ensures
        o@ == inv_shift_rows(s@),
{
    let mut o = [0u8; 16];
    let mut i: usize = 0;
    while i < 16
        invariant
            0 <= i <= 16,
            forall|k: int| 0 <= k < i ==> o@[k] == inv_shift_rows(s@)[k],
        decreases 16 - i,
    {
        o[i] = s[i % 4 + 4 * ((i / 4 + 4 - i % 4) % 4)];
        i = i + 1;
    }
    assert(o@ =~= inv_shift_rows(s@));
    o
}

fn mix_columns_exec(s: &[u8; 16]) -> (o: [u8; 16])
    ensures
        o@ == mix_columns(s@),
{
    let mut o = [0u8; 16];
    let mut col: usize = 0;
    while col < 4
        invariant
            0 <= col <= 4,
            forall|k: int| 0 <= k < 4 * col ==> o@[k] == mix_columns(s@)[k],
        decreases 4 - col,
    {
        let c = 4 * col;
        let (a0, a1, a2, a3) = (s[c], s[c + 1], s[c + 2], s[c + 3]);
        let (x0, x1, x2, x3) = (xtime_byte(a0), xtime_byte(a1), xtime_byte(a2), xtime_byte(a3));
        o[c] = x0 ^ (x1 ^ a1) ^ a2 ^ a3;
        o[c + 1] = a0 ^ x1 ^ (x2 ^ a2) ^ a3;
        o[c + 2] = a0 ^ a1 ^ x2 ^ (x3 ^ a3);
        o[c + 3] = (x0 ^ a0) ^ a1 ^ a2 ^ x3;
        assert forall|k: int| 0 <= k < 4 * col + 4 implies o@[k] == mix_columns(s@)[k] by {
            if k >= c {
                assert(4 * (k / 4) == c);
            }
        }
        col = col + 1;
    }
    assert(o@ =~= mix_columns(s@));
    o
}

fn inv_mix_columns_exec(s: &[u8; 16]) -> (o: [u8; 16])
    ensures
        o@ == inv_mix_columns(s@),
{
    let mut o = [0u8; 16];
    let mut col: usize = 0;
    while col < 4
        invariant
            0 <= col <= 4,
            forall|k: int| 0 <= k < 4 * col ==> o@[k] == inv_mix_columns(s@)[k],
        decreases 4 - col,
    {
        let c = 4 * col;
        let (m0, m1, m2, m3) = (s[c], s[c + 1], s[c + 2], s[c + 3]);
        let (d0, d1, d2, d3) = (xtime_byte(m0), xtime_byte(m1), xtime_byte(m2), xtime_byte(m3));
        let (q0, q1, q2, q3) = (xtime_byte(d0), xtime_byte(d1), xtime_byte(d2), xtime_byte(d3));
        let (e0, e1, e2, e3) = (xtime_byte(q0), xtime_byte(q1), xtime_byte(q2), xtime_byte(q3));
        o[c] = (e0 ^ q0 ^ d0) ^ (e1 ^ d1 ^ m1) ^ (e2 ^ q2 ^ m2) ^ (e3 ^ m3);
        o[c + 1] = (e0 ^ m0) ^ (e1 ^ q1 ^ d1) ^ (e2 ^ d2 ^ m2) ^ (e3 ^ q3 ^ m3);
        o[c + 2] = (e0 ^ q0 ^ m0) ^ (e1 ^ m1) ^ (e2 ^ q2 ^ d2) ^ (e3 ^ d3 ^ m3);
        o[c + 3] = (e0 ^ d0 ^ m0) ^ (e1 ^ q1 ^ m1) ^ (e2 ^ m2) ^ (e3 ^ q3 ^ d3);
        assert forall|k: int| 0 <= k < 4 * col + 4 implies o@[k] == inv_mix_columns(s@)[k] by {
            if k >= c {
                assert(4 * (k / 4) == c);
            }
        }
        col = col + 1;
    }
    assert(o@ =~= inv_mix_columns(s@));
    o
}

fn add_round_key_exec(s: &[u8; 16], rk: &Vec<u8>, round: usize) -> (o: [u8; 16])
    requires
        rk@.len() == 176,
        round <= 10,
    ensures
        o@ == add_round_key(s@, rk@, round as int),
{
    let mut o = [0u8; 16];
    let mut i: usize = 0;
    while i < 16
        invariant
            0 <= i <= 16,
            rk@.len() == 176,
            round <= 10,
            forall|k: int| 0 <= k < i ==> o@[k] == add_round_key(s@, rk@, round as int)[k],
        decreases 16 - i,
    {
        o[i] = s[i] ^ rk[16 * round + i];
        i = i + 1;
    }
    assert(o@ =~= add_round_key(s@, rk@, round as int));
    o
}

fn rcon_byte(j: usize) -> (r: u8)
    requires
        1 <= j,
    ensures
        r == rcon(j as int),
{
    let mut r: u8 = 1;
    let mut k: usize = 1;
    while k < j
        invariant
            1 <= k <= j,
            r == rcon(k as int),
        decreases j - k,
    {
        r = xtime_byte(r);
        k = k + 1;
    }
    r
}

/// The 176 bytes of the AES-128 key schedule of `key`.
fn expand_key(key: &[u8; 16]) -> (rk: Vec<u8>)
    ensures
        rk@ == round_keys(key@),
        rk@.len() == 176,
{
    let mut w: Vec<u8> = Vec::new();
    let mut i: usize = 0;
    while i < 16
        invariant
            0 <= i <= 16,
            w@ == key@.subrange(0, i as int),
        decreases 16 - i,
    {
        w.push(key[i]);
        assert(w@ =~= key@.subrange(0, i + 1));
        i = i + 1;
    }
    let mut n: usize = 4;
    while n < 44
        invariant
            4 <= n <= 44,
            w@ == key_schedule(key@, n as nat),
            w@.len() == 4 * n,
        decreases 44 - n,
    {
        let base = 4 * (n - 1);
        let (t0, t1, t2, t3) = if n % 4 == 0 {
            (sbox_byte(w[base + 1]) ^ rcon_byte(n / 4), sbox_byte(w[base + 2]), sbox_byte(w[base + 3]), sbox_byte(w[base]))
        } else {
            (w[base], w[base + 1], w[base + 2], w[base + 3])
        };
        let from = 4 * (n - 4);
        let ghost prev = w@;
        let v0 = w[from] ^ t0;
        let v1 = w[from + 1] ^ t1;
        let v2 = w[from + 2] ^ t2;
        let v3 = w[from + 3] ^ t3;
        w.push(v0);
        w.push(v1);
        w.push(v2);
        w.push(v3);
        assert(w@ =~= prev + next_word(prev, n as int));
        n = n + 1;
    }
    w
}

fn encrypt_block_exec(b: &[u8; 16], rk: &Vec<u8>) -> (o: [u8; 16])
    requires
        rk@.len() == 176,
    ensures
        o@ == encrypt_block(b@, rk@),
{
    let mut s = add_round_key_exec(b, rk, 0);
    let mut r: usize = 1;
    while r < 10
        invariant
            1 <= r <= 10,
            rk@.len() == 176,
            s@ == enc_state(b@, rk@, (r - 1) as nat),
        decreases 10 - r,
    {
        let t1 = sub_bytes_exec(&s);
        let t2 = shift_rows_exec(&t1);
        let t3 = mix_columns_exec(&t2);
        s = add_round_key_exec(&t3, rk, r);
        r = r + 1;
    }
    let t1 = sub_bytes_exec(&s);
    let t2 = shift_rows_exec(&t1);
    add_round_key_exec(&t2, rk, 10)
}

fn decrypt_block_exec(b: &[u8; 16], rk: &Vec<u8>) -> (o: [u8; 16])
    requires
        rk@.len() == 176,
    ensures
        o@ == decrypt_block(b@, rk@),
{
    let mut s = add_round_key_exec(b, rk, 10);
    let ghost s0 = s@;
    let mut r: usize = 9;
    while r > 0
        invariant
            r <= 9,
            rk@.len() == 176,
            dec_rounds(s0, rk@, 9) == dec_rounds(s@, rk@, r as nat),
        decreases r,
    {
        let t1 = inv_shift_rows_exec(&s);
        let t2 = inv_sub_bytes_exec(&t1);
        let t3 = add_round_key_exec(&t2, rk, r);
        s = inv_mix_columns_exec(&t3);
        r = r - 1;
    }
    let t1 = inv_shift_rows_exec(&s);
    let t2 = inv_sub_bytes_exec(&t1);
    add_round_key_exec(&t2, rk, 0)
}

fn vp_key_bytes() -> (k: [u8; 16])
    ensures
        k@ == vp_key(),
{
    let k: [u8; 16] = [0x46, 0x41, 0x38, 0x39, 0x34, 0x31, 0x32, 0x44, 0x38, 0x37, 0x42, 0x30, 0x45, 0x46, 0x44, 0x39];
    assert(k@ =~= vp_key());
    k
}

fn cbc_decrypt_exec(data: &[u8], rk: &Vec<u8>) -> (p: Vec<u8>)
    requires
        data@.len() >= 16,
        data@.len() % 16 == 0,
        rk@.len() == 176,
    ensures
        p@ == cbc_decrypt(data@, rk@),
{
    let n = data.len();
    let ghost full = cbc_decrypt(data@, rk@);
    let mut p: Vec<u8> = Vec::new();
    let mut k: usize = 16;
    while k < n
        invariant
            16 <= k <= n,
            k % 16 == 0,
            n == data@.len(),
            n % 16 == 0,
            rk@.len() == 176,
            full == cbc_decrypt(data@, rk@),
            p@ == full.subrange(0, k - 16),
        decreases n - k,
    {
        let mut blk = [0u8; 16];
        let mut t: usize = 0;
        while t < 16
            invariant
                0 <= t <= 16,
                k + 16 <= n,
                n == data@.len(),
                forall|i: int| 0 <= i < t ==> blk@[i] == data@[k + i],
            decreases 16 - t,
        {
            blk[t] = data[k + t];
            t = t + 1;
        }
        assert(blk@ =~= block(data@, (k / 16) as int));
        let d = decrypt_block_exec(&blk, rk);
        let mut t: usize = 0;
        while t < 16
            invariant
                0 <= t <= 16,
                16 <= k,
                k + 16 <= n,
                k % 16 == 0,
                n == data@.len(),
                full == cbc_decrypt(data@, rk@),
                d@ == decrypt_block(block(data@, (k / 16) as int), rk@),
                p@ == full.subrange(0, k - 16 + t),
            decreases 16 - t,
        {
            let ghost j = k - 16 + t;
            assert(j / 16 + 1 == k / 16 && j % 16 == t);
            p.push(d[t] ^ data[k - 16 + t]);
            assert(p@ =~= full.subrange(0, k - 16 + t + 1));
            t = t + 1;
        }
        k = k + 16;
    }
    assert(p@ =~= full);
    p
}

fn unpad_exec(p: Vec<u8>) -> (r: Option<Vec<u8>>)
    ensures
        match unpad(p@) {
            Some(q) => r matches Some(v) && v@ == q,
            None => r is None,
        },
{
    let len = p.len();
    if len == 0 {
        return None;
    }
    let n = p[len - 1] as usize;
    if n < 1 || n > 16 || n > len {
        return None;
    }
    let mut k: usize = len - n;
    while k < len
        invariant
            len - n <= k <= len,
            len == p@.len(),
            1 <= n <= 16,
            n == p@.last(),
            forall|i: int| len - n <= i < k ==> #[trigger] p@[i] == n,
        decreases len - k,
    {
        if p[k] as usize != n {
            return None;
        }
        k = k + 1;
    }
    let mut q = p;
    q.truncate(len - n);
    Some(q)
}

fn pad_exec(data: &[u8]) -> (q: Vec<u8>)
    requires
        data@.len() + 16 <= usize::MAX,
    ensures
        q@ == pad(data@),
{
    let len = data.len();
    let n = 16 - len % 16;
    let mut q: Vec<u8> = Vec::new();
    let mut i: usize = 0;
    while i < len
        invariant
            0 <= i <= len,
            len == data@.len(),
            q@ == data@.subrange(0, i as int),
        decreases len - i,
    {
        q.push(data[i]);
        assert(q@ =~= data@.subrange(0, i + 1));
        i = i + 1;
    }
    let mut k: usize = 0;
    while k < n
        invariant
            0 <= k <= n,
            n == 16 - len % 16,
            len == data@.len(),
            q@ == data@ + Seq::new(k as nat, |j: int| n as u8),
        decreases n - k,
    {
        q.push(n as u8);
        assert(q@ =~= data@ + Seq::new((k + 1) as nat, |j: int| n as u8));
        k = k + 1;
    }
    q
}

/// The plaintext of the VandalProof package `data`, or None when it is not
/// one: shorter than two blocks, not whole blocks, or wrongly padded.
pub fn decrypt_vandalproof(data: &[u8]) -> (r: Option<Vec<u8>>)
    ensures
        match vp_decrypt(data@) {
            Some(p) => r matches Some(v) && v@ == p,
            None => r is None,
        },
{
    if data.len() < 32 || data.len() % 16 != 0 {
        return None;
    }
    let key = vp_key_bytes();
    let rk = expand_key(&key);
    let p = cbc_decrypt_exec(data, &rk);
    unpad_exec(p)
}

/// The VandalProof package of `data` with IV `iv`: the IV, then `data`
/// padded and AES-128-CBC encrypted.
pub fn encrypt_vandalproof(data: &[u8], iv: &[u8; 16]) -> (c: Vec<u8>)
    requires
        data@.len() + 32 <= usize::MAX,
    ensures
        c@ == vp_encrypt(data@, iv@),
{
    let key = vp_key_bytes();
    let rk = expand_key(&key);
    let q = pad_exec(data);
    let n = q.len();
    let mut out: Vec<u8> = Vec::new();
    let mut i: usize = 0;
    while i < 16
        invariant
            0 <= i <= 16,
            out@ == iv@.subrange(0, i as int),
        decreases 16 - i,
    {
        out.push(iv[i]);
        assert(out@ =~= iv@.subrange(0, i + 1));
        i = i + 1;
    }
    assert(out@ =~= iv@);
    let mut prev: [u8; 16] = *iv;
    assert(q@.subrange(0, n as int) =~= q@);
    let mut k: usize = 0;
    while k < n
        invariant
            k <= n,
            k % 16 == 0,
            n == q@.len(),
            n % 16 == 0,
            n + 16 <= usize::MAX,
            rk@ == round_keys(vp_key()),
            rk@.len() == 176,
            vp_encrypt(data@, iv@) == out@ + cbc_blocks(q@.subrange(k as int, n as int), rk@, prev@),
        decreases n - k,
    {
        let ghost rest = q@.subrange(k as int, n as int);
        let mut x = [0u8; 16];
        let mut t: usize = 0;
        while t < 16
            invariant
                0 <= t <= 16,
                k + 16 <= n,
                n == q@.len(),
                rest == q@.subrange(k as int, n as int),
                forall|i: int| 0 <= i < t ==> x@[i] == rest[i] ^ prev@[i],
            decreases 16 - t,
        {
            x[t] = q[k + t] ^ prev[t];
            t = t + 1;
        }
        assert(x@ =~= Seq::new(16, |i: int| rest[i] ^ prev@[i]));
        let c = encrypt_block_exec(&x, &rk);
        let ghost before = out@;
        let mut t: usize = 0;
        while t < 16
            invariant
                0 <= t <= 16,
                out@ == before + c@.subrange(0, t as int),
            decreases 16 - t,
        {
            out.push(c[t]);
            assert(out@ =~= before + c@.subrange(0, t + 1));
            t = t + 1;
        }
        assert(c@.subrange(0, 16) =~= c@);
        assert(rest.subrange(16, rest.len() as int) =~= q@.subrange(k + 16, n as int));
        assert(before + cbc_blocks(rest, rk@, prev@) == out@ + cbc_blocks(q@.subrange(k + 16, n as int), rk@, c@));
        prev = c;
        k = k + 16;
    }
    assert(cbc_blocks(q@.subrange(k as int, n as int), rk@, prev@) =~= seq![]);
    assert(out@ + seq![] =~= out@);
    out
}

} // verus!
